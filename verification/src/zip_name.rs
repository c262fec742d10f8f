//! Names of archive entries.
//!
//! Every entry lies beneath one fixed top-level directory. Bytes of a file name that mean
//! something to an extractor on any platform are percent-encoded, so that the name stays one
//! component everywhere and can be decoded without loss.
use crate::error::{AdmissionError, AdmissionResource, AnyError, LimitKind};
use crate::fault::{in_context, said, Fault};
use crate::path::{
    component_views, components, lemma_parts_are_nameful, lemma_stretches_nonempty,
    lemma_stretches_of_slashed, nameful, parts, parts_of, slashed, slashless, split_slashes, stretch_part, stretches, Component, Part, DOT, SLASH,
};
use crate::text::{
    ascii_byte, char_width, chars_of, copy_bytes, lemma_ascii_char, lemma_char_width, lemma_encode_concat,
    push_ascii, quote, quoted_text, same_bytes, scalar_width, string_from_utf8,
    text2, width_of, TextBuilder,
};
use vstd::prelude::*;
use vstd::utf8::*;

verus! {

/// The directory that every entry lies beneath.
pub const ZIP_TOP_LEVEL_DIRECTORY: &'static str = "archive";

/// The archive format holds the length of a name in sixteen bits.
pub const ZIP_ENTRY_NAME_MAX_BYTES: usize = 65535;

pub const PERCENT: u8 = 37;

pub const BACKSLASH: u8 = 92;

pub const COLON: u8 = 58;

pub const SPACE: u8 = 32;

/// The name of the top-level directory as bytes.
pub open spec fn top_level() -> Seq<u8> {
    encode_utf8("archive"@)
}

/// Bytes that may not stand in a component on some platform.
pub open spec fn unportable(b: u8) -> bool {
    b <= 0x1f || b == 0x7f || b == 60 || b == 62 || b == COLON || b == 34 || b == SLASH || b
        == BACKSLASH || b == 124 || b == 63 || b == 42
}

pub open spec fn upper_hex(b: u8) -> bool {
    48 <= b <= 57 || 65 <= b <= 70
}

pub fn is_upper_hex_digit(byte: u8) -> (hex: bool)
    ensures
        hex == upper_hex(byte),
{
    (48 <= byte && byte <= 57) || (65 <= byte && byte <= 70)
}

pub fn is_unportable(byte: u8) -> (bad: bool)
    ensures
        bad == unportable(byte),
{
    byte <= 0x1f || byte == 0x7f || byte == 60 || byte == 62 || byte == COLON || byte == 34 || byte
        == SLASH || byte == BACKSLASH || byte == 124 || byte == 63 || byte == 42
}

// ---------------------------------------------------------------------------------------------
// Device names
// ---------------------------------------------------------------------------------------------

pub open spec fn to_lower(b: u8) -> u8 {
    if 65 <= b <= 90 {
        (b + 32) as u8
    } else {
        b
    }
}

/// Equality of byte strings up to the case of ASCII letters.
pub open spec fn same_folded(a: Seq<u8>, b: Seq<u8>) -> bool {
    a.len() == b.len() && forall|i: int|
        0 <= i < a.len() ==> to_lower(#[trigger] a[i]) == to_lower(b[i])
}

pub open spec fn blank(b: u8) -> bool {
    b == 32 || b == 9 || b == 10 || b == 12 || b == 13
}

/// Where the part of a component in front of its first dot or colon ends, from `i` on.
pub open spec fn stem_end(c: Seq<u8>, i: int) -> int
    decreases c.len() - i,
{
    if i >= c.len() {
        c.len() as int
    } else if c[i] == DOT || c[i] == COLON {
        i
    } else {
        stem_end(c, i + 1)
    }
}

/// The length of the first `n` bytes without the blanks at their end.
pub open spec fn trimmed(c: Seq<u8>, n: int) -> int
    decreases n,
{
    if n > 0 && blank(c[n - 1]) {
        trimmed(c, n - 1)
    } else {
        n
    }
}

/// The part of a component that a platform with device names looks at.
pub open spec fn stem(c: Seq<u8>) -> Seq<u8> {
    c.take(trimmed(c, stem_end(c, 0)))
}

/// A device prefix followed by a digit from one on, or by one of three superscript digits.
pub open spec fn numbered_device(s: Seq<u8>, prefix: Seq<u8>) -> bool {
    &&& s.len() >= prefix.len()
    &&& same_folded(s.take(prefix.len() as int), prefix)
    &&& {
        let suffix = s.skip(prefix.len() as int);
        ||| suffix.len() == 1 && 49 <= suffix[0] <= 57
        ||| suffix.len() == 2 && suffix[0] == 0xc2 && (suffix[1] == 0xb9 || suffix[1] == 0xb2
            || suffix[1] == 0xb3)
    }
}

pub open spec fn con() -> Seq<u8> {
    seq![67, 79, 78]
}

pub open spec fn prn() -> Seq<u8> {
    seq![80, 82, 78]
}

pub open spec fn aux() -> Seq<u8> {
    seq![65, 85, 88]
}

pub open spec fn nul() -> Seq<u8> {
    seq![78, 85, 76]
}

pub open spec fn com() -> Seq<u8> {
    seq![67, 79, 77]
}

pub open spec fn lpt() -> Seq<u8> {
    seq![76, 80, 84]
}

/// A name that stands for a device.
pub open spec fn device_stem(s: Seq<u8>) -> bool {
    ||| same_folded(s, con())
    ||| same_folded(s, prn())
    ||| same_folded(s, aux())
    ||| same_folded(s, nul())
    ||| numbered_device(s, com())
    ||| numbered_device(s, lpt())
}

fn lower(b: u8) -> (l: u8)
    ensures
        l == to_lower(b),
{
    if 65 <= b && b <= 90 {
        b + 32
    } else {
        b
    }
}

/// Whether bytes start with three letters, up to case.
fn folded_prefix(s: &[u8], prefix: &[u8; 3]) -> (same: bool)
    ensures
        same == (s@.len() >= 3 && same_folded(s@.take(3), prefix@)),
{
    if s.len() < 3 {
        return false;
    }
    let ghost head = s@.take(3);
    assert(head[0] == s@[0] && head[1] == s@[1] && head[2] == s@[2]);
    lower(s[0]) == lower(prefix[0]) && lower(s[1]) == lower(prefix[1]) && lower(s[2]) == lower(
        prefix[2],
    )
}

/// Whether a stem is a device prefix with its number.
pub fn windows_numbered_device_name(stem: &[u8], prefix: &[u8; 3]) -> (device: bool)
    ensures
        device == numbered_device(stem@, prefix@),
{
    if !folded_prefix(stem, prefix) {
        return false;
    }
    if stem.len() == 4 {
        assert(stem@.skip(3)[0] == stem@[3]);
        return 49 <= stem[3] && stem[3] <= 57;
    }
    if stem.len() == 5 {
        assert(stem@.skip(3)[0] == stem@[3] && stem@.skip(3)[1] == stem@[4]);
        return stem[3] == 0xc2 && (stem[4] == 0xb9 || stem[4] == 0xb2 || stem[4] == 0xb3);
    }
    false
}

/// Whether a component names a device on platforms that have device names.
pub fn windows_device_name(c: &[u8]) -> (device: bool)
    ensures
        device == device_stem(stem(c@)),
{
    let mut end: usize = 0;
    while end < c.len() && c[end] != DOT && c[end] != COLON
        invariant
            end <= c@.len(),
            stem_end(c@, 0) == stem_end(c@, end as int),
        decreases c.len() - end,
    {
        end = end + 1;
    }
    assert(stem_end(c@, 0) == end);
    let mut n: usize = end;
    while n > 0 && (c[n - 1] == 32 || c[n - 1] == 9 || c[n - 1] == 10 || c[n - 1] == 12 || c[n - 1]
        == 13)
        invariant
            n <= end <= c@.len(),
            trimmed(c@, end as int) == trimmed(c@, n as int),
        decreases n,
    {
        n = n - 1;
    }
    assert(trimmed(c@, end as int) == n);
    let s = vstd::slice::slice_subrange(c, 0, n);
    assert(s@ =~= stem(c@));
    assert(s@.len() == 3 ==> s@.take(3) =~= s@);
    let con_bytes: [u8; 3] = [67, 79, 78];
    let prn_bytes: [u8; 3] = [80, 82, 78];
    let aux_bytes: [u8; 3] = [65, 85, 88];
    let nul_bytes: [u8; 3] = [78, 85, 76];
    let com_bytes: [u8; 3] = [67, 79, 77];
    let lpt_bytes: [u8; 3] = [76, 80, 84];
    assert(con_bytes@ =~= con() && prn_bytes@ =~= prn() && aux_bytes@ =~= aux());
    assert(nul_bytes@ =~= nul() && com_bytes@ =~= com() && lpt_bytes@ =~= lpt());
    if n == 3 && (folded_prefix(s, &con_bytes) || folded_prefix(s, &prn_bytes) || folded_prefix(s, &aux_bytes)
        || folded_prefix(s, &nul_bytes)) {
        return true;
    }
    windows_numbered_device_name(s, &com_bytes) || windows_numbered_device_name(s, &lpt_bytes)
}

// ---------------------------------------------------------------------------------------------
// Names that may stand in an archive
// ---------------------------------------------------------------------------------------------

/// Every percent sign is followed by two upper-case hexadecimal digits.
pub open spec fn well_escaped(c: Seq<u8>) -> bool {
    forall|i: int| 0 <= i < c.len() && #[trigger] c[i] == PERCENT ==> i + 2 < c.len() && upper_hex(c[i + 1]) && upper_hex(c[i + 2])
}

/// A component that is one ordinary name on every platform.
pub open spec fn portable(c: Seq<u8>) -> bool {
    &&& c.len() > 0
    &&& c.last() != DOT
    &&& c.last() != SPACE
    &&& !device_stem(stem(c))
    &&& forall|i: int| 0 <= i < c.len() ==> !unportable(#[trigger] c[i])
    &&& well_escaped(c)
}

/// A component whose shape alone some platform refuses.
pub open spec fn misshapen(c: Seq<u8>) -> bool {
    c.len() == 0 || c.last() == DOT || c.last() == SPACE || device_stem(stem(c))
}

/// Whether the first thing wrong with the bytes of a component is a percent sign that does not
/// start an escape.
pub open spec fn misescaped(c: Seq<u8>) -> bool {
    exists|i: int|
        0 <= i < c.len() && #[trigger] c[i] == PERCENT && !(i + 2 < c.len() && upper_hex(c[i + 1])
            && upper_hex(c[i + 2])) && forall|j: int| 0 <= j < i ==> !unportable(#[trigger] c[j])
}

/// The failure of a component that is not portable.
pub open spec fn component_fault(component: Seq<char>) -> Fault {
    let c = encode_utf8(component);
    if !misshapen(c) && misescaped(c) {
        said("invalid percent encoding in ZIP entry component "@ + quoted_text(component))
    } else {
        said("unsafe ZIP entry component "@ + quoted_text(component))
    }
}

fn unsafe_component(component: &str) -> (error: AnyError)
    ensures
        error@ == said("unsafe ZIP entry component "@ + quoted_text(component@)),
{
    AnyError::message(text2("unsafe ZIP entry component ", quote(component).as_str()).as_str())
}

pub fn validate_portable_zip_component(component: &str) -> (result: Result<(), AnyError>)
    ensures
        result is Ok <==> portable(encode_utf8(component@)),
        result matches Err(e) ==> e@ == component_fault(component@),
{
    let c = component.as_bytes();
    if c.len() == 0 || c[c.len() - 1] == DOT || c[c.len() - 1] == SPACE || windows_device_name(c) {
        return Err(unsafe_component(component));
    }
    let mut index: usize = 0;
    while index < c.len()
        invariant
            index <= c@.len(),
            c@ == encode_utf8(component@),
            !misshapen(c@),
            forall|i: int| 0 <= i < index ==> !unportable(#[trigger] c@[i]),
            forall|i: int|
                0 <= i < index && #[trigger] c@[i] == PERCENT ==> i + 2 < index && upper_hex(
                    c@[i + 1],
                ) && upper_hex(c@[i + 2]),
        decreases c.len() - index,
    {
        let byte: u8 = c[index];
        if byte == PERCENT {
            if c.len() - index <= 2 || !is_upper_hex_digit(c[index + 1]) || !is_upper_hex_digit(
                c[index + 2],
            ) {
                assert(c@[index as int] == PERCENT);
                let quoted = quote(component);
                return Err(
                    AnyError::message(
                        text2(
                            "invalid percent encoding in ZIP entry component ",
                            quoted.as_str(),
                        ).as_str(),
                    ),
                );
            }
            index = index + 3;
        } else {
            if is_unportable(byte) {
                assert(unportable(c@[index as int]));
                return Err(unsafe_component(component));
            }
            index = index + 1;
        }
    }
    Ok(())
}

/// An entry name without the slash at the end of a directory's name.
pub open spec fn logical_name(n: Seq<u8>, directory: bool) -> Seq<u8> {
    if directory {
        n.drop_last()
    } else {
        n
    }
}

/// An entry name that extracts beneath the top-level directory on every platform. The name of
/// a directory ends in a slash.
pub open spec fn entry_name(n: Seq<u8>, directory: bool) -> bool {
    let all = stretches(logical_name(n, directory));
    &&& n.len() <= ZIP_ENTRY_NAME_MAX_BYTES
    &&& n.len() > 0
    &&& (n.last() == SLASH) == directory
    &&& !n.contains(0)
    &&& all[0] == top_level()
    &&& forall|i: int| 1 <= i < all.len() ==> portable(#[trigger] all[i])
    &&& !directory ==> all.len() > 1
}

/// The failure of an entry name that is too long.
pub open spec fn name_too_long(observed: nat) -> Fault {
    in_context(
        Fault::Admission {
            error: (AdmissionError::LimitExceeded {
                resource: AdmissionResource::ArchiveEntryNameBytes,
                kind: LimitKind::Semantic,
                limit: ZIP_ENTRY_NAME_MAX_BYTES as u64,
                observed: Some(observed as u64),
            }),
        },
        "ZIP entry-name byte limit exceeded"@,
    )
}

pub fn archive_entry_name_limit_error(observed: usize) -> (error: AnyError)
    ensures
        error@ == name_too_long(observed as nat),
{
    AnyError::admission(
        AdmissionError::limit_exceeded(
            AdmissionResource::ArchiveEntryNameBytes,
            LimitKind::Semantic,
            ZIP_ENTRY_NAME_MAX_BYTES as u64,
            Some(observed as u64),
        ),
    ).context("ZIP entry-name byte limit exceeded")
}

fn contains_byte(bytes: &[u8], byte: u8) -> (found: bool)
    ensures
        found == bytes@.contains(byte),
{
    let mut i: usize = 0;
    while i < bytes.len()
        invariant
            i <= bytes@.len(),
            forall|j: int| 0 <= j < i ==> #[trigger] bytes@[j] != byte,
        decreases bytes.len() - i,
    {
        if bytes[i] == byte {
            assert(bytes@[i as int] == byte);
            return true;
        }
        i = i + 1;
    }
    false
}

/// The first component beneath the top-level directory that is not portable.
pub open spec fn first_unportable(all: Seq<Seq<u8>>, i: int) -> bool {
    &&& 1 <= i < all.len()
    &&& !portable(all[i])
    &&& forall|j: int| 1 <= j < i ==> portable(#[trigger] all[j])
}

/// The failure of a name that may not stand in an archive.
pub open spec fn entry_fault(name: Seq<char>, directory: bool, fault: Fault) -> bool {
    let n = encode_utf8(name);
    let all = stretches(logical_name(n, directory));
    let unsafe_name = said("unsafe ZIP entry name "@ + quoted_text(name));
    if n.len() > ZIP_ENTRY_NAME_MAX_BYTES {
        fault == name_too_long(n.len())
    } else if n.len() == 0 || n[0] == SLASH || n[0] == BACKSLASH || n.contains(0) {
        fault == unsafe_name
    } else if directory && n.last() != SLASH {
        fault == said("ZIP directory entry lacks its trailing slash"@)
    } else if !directory && n.last() == SLASH {
        fault == said("ZIP file entry has a trailing slash"@)
    } else if all[0] != top_level() {
        fault == said("ZIP entry is outside the fixed top-level directory"@)
    } else if exists|i: int| first_unportable(all, i) {
        exists|i: int|
            #![trigger first_unportable(all, i)]
            first_unportable(all, i) && fault == component_fault(decode_utf8(all[i]))
    } else {
        fault == said("ZIP file entry must be a child of the fixed top-level directory"@)
    }
}

/// Accepts exactly the names that extract beneath the top-level directory everywhere.
pub fn validate_zip_entry_name(name: &str, directory: bool) -> (result: Result<(), AnyError>)
    ensures
        result is Ok <==> entry_name(encode_utf8(name@), directory),
        result matches Err(e) ==> entry_fault(name@, directory, e@),
{
    let n = name.as_bytes();
    // A longer name would not fit the headers of the archive.
    if n.len() > ZIP_ENTRY_NAME_MAX_BYTES {
        return Err(archive_entry_name_limit_error(n.len()));
    }
    let ghost logical = logical_name(n@, directory);
    proof {
        lemma_stretches_nonempty(logical);
        lemma_first_stretch(logical);
        lemma_top_level();
        encode_utf8_valid_utf8(name@);
    }
    if n.len() == 0 || n[0] == SLASH || n[0] == BACKSLASH || contains_byte(n, 0) {
        let quoted = quote(name);
        return Err(AnyError::message(text2("unsafe ZIP entry name ", quoted.as_str()).as_str()));
    }
    let ends_in_slash = n[n.len() - 1] == SLASH;
    if directory && !ends_in_slash {
        return Err(AnyError::message("ZIP directory entry lacks its trailing slash"));
    }
    if !directory && ends_in_slash {
        return Err(AnyError::message("ZIP file entry has a trailing slash"));
    }
    let end: usize = if directory { n.len() - 1 } else { n.len() };
    let head = vstd::slice::slice_subrange(n, 0, end);
    assert(head@ =~= logical);
    proof {
        lemma_logical_is_text(n@, directory);
    }
    let all = split_slashes(head);
    let ghost whole = stretches(logical);
    let ghost as_seq = |v: Vec<u8>| v@;
    assert(all@.map_values(as_seq) == whole);
    assert(whole[0] == all@[0]@);
    if !same_bytes(all[0].as_slice(), ZIP_TOP_LEVEL_DIRECTORY.as_bytes()) {
        return Err(AnyError::message("ZIP entry is outside the fixed top-level directory"));
    }
    let mut i: usize = 1;
    while i < all.len()
        invariant
            1 <= i <= all@.len(),
            as_seq == (|v: Vec<u8>| v@),
            all@.map_values(as_seq) == whole,
            whole == stretches(logical_name(n@, directory)),
            n@ == encode_utf8(name@),
            valid_utf8(logical_name(n@, directory)),
            0 < n@.len() <= ZIP_ENTRY_NAME_MAX_BYTES,
            n@[0] != SLASH && n@[0] != BACKSLASH && !n@.contains(0),
            directory == (n@.last() == SLASH),
            whole[0] == top_level(),
            forall|j: int| 1 <= j < i ==> portable(#[trigger] whole[j]),
        decreases all.len() - i,
    {
        assert(whole[i as int] == all@[i as int]@);
        proof {
            lemma_stretch_is_text(logical_name(n@, directory), i as int);
        }
        let component = string_from_utf8(copy_bytes(all[i].as_slice()));
        proof {
            encode_utf8_decode_utf8(component@);
        }
        match validate_portable_zip_component(component.as_str()) {
            Ok(()) => {},
            Err(e) => {
                assert(first_unportable(whole, i as int));
                return Err(e);
            },
        }
        i = i + 1;
    }
    if !directory && all.len() == 1 {
        assert forall|i: int| !first_unportable(whole, i) by {}
        return Err(
            AnyError::message("ZIP file entry must be a child of the fixed top-level directory"),
        );
    }
    Ok(())
}

/// Cutting off the slash at the end of a directory's name leaves text.
proof fn lemma_logical_is_text(n: Seq<u8>, directory: bool)
    requires
        valid_utf8(n),
        n.len() > 0,
        directory ==> n.last() == SLASH,
    ensures
        valid_utf8(logical_name(n, directory)),
{
    if directory {
        let k = n.len() - 1;
        is_char_boundary_iff_not_is_continuation_byte(n, k);
        valid_utf8_split(n, k);
        assert(n.subrange(0, k) =~= n.drop_last());
    }
}

/// Where a stretch of a path lies in it.
proof fn lemma_stretch_bounds(path: Seq<u8>, i: int) -> (bounds: (int, int))
    requires
        0 <= i < stretches(path).len(),
    ensures
        0 <= bounds.0 <= bounds.1 <= path.len(),
        stretches(path)[i] == path.subrange(bounds.0, bounds.1),
        bounds.0 > 0 ==> path[bounds.0 - 1] == SLASH,
        i + 1 < stretches(path).len() ==> bounds.1 < path.len() && path[bounds.1] == SLASH,
        i + 1 == stretches(path).len() ==> bounds.1 == path.len(),
    decreases path.len(),
{
    lemma_stretches_nonempty(path);
    if path.len() == 0 {
        assert(stretches(path)[i] =~= path.subrange(0, 0));
        (0, 0)
    } else {
        let shorter = path.drop_last();
        let before = stretches(shorter);
        lemma_stretches_nonempty(shorter);
        if i == before.len() {
            let k = path.len() as int;
            assert(stretches(path)[i] =~= path.subrange(k, k));
            (k, k)
        } else {
            let bounds = lemma_stretch_bounds(shorter, i);
            if path.last() != SLASH && i + 1 == before.len() {
                assert(stretches(path)[i] =~= path.subrange(bounds.0, bounds.1 + 1));
                (bounds.0, bounds.1 + 1)
            } else {
                assert(stretches(path)[i] =~= path.subrange(bounds.0, bounds.1));
                bounds
            }
        }
    }
}

/// The stretches of text between slashes are text.
proof fn lemma_stretch_is_text(path: Seq<u8>, i: int)
    requires
        valid_utf8(path),
        0 <= i < stretches(path).len(),
    ensures
        valid_utf8(stretches(path)[i]),
{
    let (a, b) = lemma_stretch_bounds(path, i);
    let len = path.len() as int;
    let tail = path.subrange(a, len);
    if a == 0 {
        assert(tail =~= path);
    } else {
        is_char_boundary_iff_not_is_continuation_byte(path, a - 1);
        valid_utf8_split(path, a - 1);
        let led = path.subrange(a - 1, len);
        assert(led[0] == SLASH);
        assert(pop_first_scalar(led) =~= tail);
    }
    if b < len {
        assert(tail[b - a] == SLASH);
        is_char_boundary_iff_not_is_continuation_byte(tail, b - a);
        valid_utf8_split(tail, b - a);
        assert(tail.subrange(0, b - a) =~= path.subrange(a, b));
    }
}

proof fn lemma_top_level()
    ensures
        top_level().len() == 7,
        top_level()[0] == 97,
        forall|i: int|
            0 <= i < top_level().len() ==> 97 <= #[trigger] top_level()[i] && top_level()[i] <= 122,
{
    reveal_strlit("archive");
    assert(is_ascii_chars("archive"@));
    is_ascii_chars_encode_utf8("archive"@);
    assert forall|i: int| 0 <= i < top_level().len() implies 97 <= #[trigger] top_level()[i]
        && top_level()[i] <= 122 by {
        assert("archive"@[i] as u8 == encode_utf8("archive"@)[i]);
        assert('a' <= "archive"@[i] && "archive"@[i] <= 'z');
    }
    assert("archive"@[0] == 'a');
}

/// The entry of the top-level directory itself: its name stands in an archive like any other.
pub fn top_level_name() -> (name: String)
    ensures
        name@ == "archive/"@,
        entry_name(encode_utf8(name@), true),
{
    let name = text2(ZIP_TOP_LEVEL_DIRECTORY, "/");
    proof {
        reveal_strlit("archive");
        reveal_strlit("/");
        reveal_strlit("archive/");
        assert(name@ =~= "archive/"@);
        lemma_top_level();
        lemma_encode_concat("archive"@, "/"@);
        assert(is_ascii_chars("/"@));
        is_ascii_chars_encode_utf8("/"@);
        let n = encode_utf8(name@);
        assert(n =~= top_level().push(SLASH));
        assert(logical_name(n, true) =~= top_level());
        assert(slashless(top_level()));
        assert(slashed(seq![top_level()]) == top_level()) by {
            reveal_with_fuel(slashed, 2);
        }
        lemma_stretches_of_slashed(seq![top_level()]);
    }
    name
}

/// A path that starts with a slash has an empty first stretch, and otherwise the first stretch
/// starts like the path.
proof fn lemma_first_stretch(path: Seq<u8>)
    ensures
        path.len() == 0 ==> stretches(path)[0].len() == 0,
        path.len() > 0 && path[0] == SLASH ==> stretches(path)[0].len() == 0 && stretches(
            path,
        ).len() >= 2,
        path.len() > 0 && path[0] != SLASH ==> stretches(path)[0].len() > 0 && stretches(path)[0][0]
            == path[0],
    decreases path.len(),
{
    lemma_stretches_nonempty(path);
    if path.len() > 0 {
        let before = stretches(path.drop_last());
        lemma_first_stretch(path.drop_last());
        lemma_stretches_nonempty(path.drop_last());
        if path.len() > 1 {
            assert(path.drop_last()[0] == path[0]);
        }
        if before.len() == 1 {
            assert(before.last() == before[0]);
        } else {
            assert(before.drop_last()[0] == before[0]);
        }
    }
}


// ---------------------------------------------------------------------------------------------
// Encoding
// ---------------------------------------------------------------------------------------------

pub open spec fn hex_digit(n: u8) -> u8 {
    if n < 10 {
        (48 + n) as u8
    } else {
        (55 + n) as u8
    }
}

/// A byte as a percent sign and two hexadecimal digits.
pub open spec fn percent_encoded(b: u8) -> Seq<u8> {
    seq![PERCENT, hex_digit(b / 16), hex_digit(b % 16)]
}

/// Whether an ASCII byte of a component stays as it is. The first byte of a device name does
/// not, which makes the name an ordinary one.
pub open spec fn stays(b: u8, index: int, len: int, reserved: bool) -> bool {
    &&& b < 128
    &&& !unportable(b)
    &&& b != PERCENT
    &&& !(index + 1 == len && (b == DOT || b == SPACE))
    &&& !(reserved && index == 0)
}

pub open spec fn encoded_byte(b: u8, index: int, len: int, reserved: bool) -> Seq<u8> {
    if stays(b, index, len, reserved) {
        seq![b]
    } else {
        percent_encoded(b)
    }
}

/// A component from `i` on, encoded: scalars beyond ASCII stay as they are, and bytes that are
/// not part of any scalar are percent-encoded.
pub open spec fn encoded_from(c: Seq<u8>, i: int, reserved: bool) -> Seq<u8>
    decreases c.len() - i,
{
    if i < 0 || i >= c.len() {
        Seq::empty()
    } else if c[i] >= 128 && valid_first_scalar(c.skip(i)) {
        let next = i + length_of_first_scalar(c.skip(i));
        c.subrange(i, next) + encoded_from(c, next, reserved)
    } else {
        encoded_byte(c[i], i, c.len() as int, reserved) + encoded_from(c, i + 1, reserved)
    }
}

/// A component as it stands in an archive.
pub open spec fn encoded(c: Seq<u8>) -> Seq<u8> {
    encoded_from(c, 0, device_stem(stem(c)))
}

pub fn encode_zip_byte_as_percent(output: &mut String, byte: u8)
    ensures
        encode_utf8(final(output)@) == encode_utf8(old(output)@) + percent_encoded(byte),
{
    let high: u8 = byte / 16;
    let low: u8 = byte % 16;
    push_ascii(output, PERCENT);
    push_ascii(
        output,
        if high < 10 {
            48 + high
        } else {
            55 + high
        },
    );
    push_ascii(
        output,
        if low < 10 {
            48 + low
        } else {
            55 + low
        },
    );
    assert(encode_utf8(output@) =~= encode_utf8(old(output)@) + percent_encoded(byte));
}

pub fn encode_zip_byte(
    output: &mut String,
    byte: u8,
    index: usize,
    component_len: usize,
    reserved_device: bool,
)
    requires
        index < usize::MAX,
    ensures
        encode_utf8(final(output)@) == encode_utf8(old(output)@) + encoded_byte(
            byte,
            index as int,
            component_len as int,
            reserved_device,
        ),
{
    let trailing_dot_or_space = index + 1 == component_len && (byte == DOT || byte == SPACE);
    let safe = byte < 128 && byte != PERCENT && !is_unportable(byte) && !trailing_dot_or_space;
    if safe && !(reserved_device && index == 0) {
        push_ascii(output, byte);
        assert(encode_utf8(output@) =~= encode_utf8(old(output)@) + seq![byte]);
    } else {
        encode_zip_byte_as_percent(output, byte);
    }
}

/// What the bytes of a stretch of text become: those of ASCII characters are encoded one by
/// one, and all others stay.
pub open spec fn encoded_run(
    valid: Seq<u8>,
    n: nat,
    offset: int,
    len: int,
    reserved: bool,
) -> Seq<u8>
    decreases n,
{
    if n == 0 {
        Seq::empty()
    } else {
        let b = valid[n - 1];
        encoded_run(valid, (n - 1) as nat, offset, len, reserved) + (if b >= 128 {
            seq![b]
        } else {
            encoded_byte(b, offset + n - 1, len, reserved)
        })
    }
}

/// Encodes a stretch of text that starts at `offset` of a component.
pub fn encode_valid_zip_utf8(
    output: &mut String,
    valid: &str,
    offset: usize,
    component_len: usize,
    reserved_device: bool,
)
    requires
        offset + encode_utf8(valid@).len() <= usize::MAX,
    ensures
        encode_utf8(final(output)@) == encode_utf8(old(output)@) + encoded_run(
            encode_utf8(valid@),
            encode_utf8(valid@).len(),
            offset as int,
            component_len as int,
            reserved_device,
        ),
{
    let chars = chars_of(valid);
    let ghost bytes = encode_utf8(valid@);
    let mut index: usize = offset;
    let mut i: usize = 0;
    assert(chars@.take(0) =~= Seq::<char>::empty());
    assert(encode_utf8(chars@.take(0)) =~= Seq::<u8>::empty());
    assert(encode_utf8(output@) =~= encode_utf8(output@) + encoded_run(
        bytes,
        0,
        offset as int,
        component_len as int,
        reserved_device,
    ));
    while i < chars.len()
        invariant
            i <= chars@.len(),
            chars@ == valid@,
            bytes == encode_utf8(valid@),
            offset + bytes.len() <= usize::MAX,
            index == offset + encode_utf8(chars@.take(i as int)).len(),
            encode_utf8(output@) == encode_utf8(old(output)@) + encoded_run(
                bytes,
                (index - offset) as nat,
                offset as int,
                component_len as int,
                reserved_device,
            ),
        decreases chars.len() - i,
    {
        let character: char = chars[i];
        let ghost done = (index - offset) as nat;
        let ghost before = output@;
        let width: usize = width_of(character);
        proof {
            lemma_char_in_text(chars@, i as int);
            lemma_run_split(
                bytes,
                done,
                done + width as nat,
                offset as int,
                component_len as int,
                reserved_device,
            );
        }
        let ghost tail = bytes.skip(done as int);
        match ascii_byte(character) {
            Some(byte) => {
                encode_zip_byte(output, byte, index, component_len, reserved_device);
                proof {
                    lemma_ascii_char(byte);
                    assert(tail.take(1)[0] == byte);
                    lemma_run_of_one(
                        tail,
                        index as int,
                        component_len as int,
                        reserved_device,
                    );
                }
            },
            None => {
                output.push(character);
                proof {
                    lemma_high_run(
                        tail,
                        width as nat,
                        index as int,
                        component_len as int,
                        reserved_device,
                    );
                    assert(output@ =~= before + seq![character]);
                    lemma_encode_concat(before, seq![character]);
                }
            },
        }
        index = index + width;
        i = i + 1;
        assert(encode_utf8(output@) =~= encode_utf8(old(output)@) + encoded_run(
            bytes,
            (index - offset) as nat,
            offset as int,
            component_len as int,
            reserved_device,
        ));
    }
    assert(chars@.take(i as int) =~= valid@);
}

/// Where a character of a text lies among its bytes.
proof fn lemma_char_in_text(text: Seq<char>, i: int)
    requires
        0 <= i < text.len(),
    ensures
        ({
            let bytes = encode_utf8(text);
            let start = encode_utf8(text.take(i)).len();
            let tail = bytes.skip(start as int);
            let width = char_width(text[i]);
            &&& start + width <= bytes.len()
            &&& encode_utf8(text.take(i + 1)).len() == start + width
            &&& tail.take(width as int) == encode_utf8(seq![text[i]])
            &&& width > 1 ==> forall|k: int| 0 <= k < width ==> #[trigger] tail[k] >= 128
        }),
{
    let bytes = encode_utf8(text);
    let front = text.take(i);
    let rest = text.skip(i);
    let one = seq![text[i]];
    let start = encode_utf8(front).len();
    let tail = bytes.skip(start as int);
    let width = char_width(text[i]);
    assert(text =~= front + rest);
    lemma_encode_concat(front, rest);
    assert(tail =~= encode_utf8(rest));
    assert(rest =~= one + rest.drop_first());
    lemma_encode_concat(one, rest.drop_first());
    lemma_char_width(text[i]);
    assert(tail.take(width as int) =~= encode_utf8(one));
    assert(text.take(i + 1) =~= front + one);
    lemma_encode_concat(front, one);
    encode_utf8_first_scalar(rest);
    assert(rest[0] == text[i]);
    if width > 1 {
        assert forall|k: int| 0 <= k < width implies #[trigger] tail[k] >= 128 by {
            assert(tail.skip(0) =~= tail);
            lemma_scalar_bytes_high(tail, 0, k);
        }
    }
}

/// Encodes a component so that it is one ordinary name on every platform.
pub fn encode_zip_component(c: &[u8]) -> (output: String)
    ensures
        encode_utf8(output@) == encoded(c@),
{
    let reserved = windows_device_name(c);
    let mut output = String::new();
    let mut offset: usize = 0;
    assert(encode_utf8(output@) =~= Seq::<u8>::empty());
    assert(encode_utf8(output@) + encoded_from(c@, 0, reserved) =~= encoded(c@));
    while offset < c.len()
        invariant
            offset <= c@.len(),
            reserved == device_stem(stem(c@)),
            encode_utf8(output@) + encoded_from(c@, offset as int, reserved) == encoded(c@),
        decreases c.len() - offset,
    {
        let ghost written = encode_utf8(output@);
        let valid_end: usize = valid_run_end(c, offset);
        let valid = string_from_utf8(
            copy_bytes(vstd::slice::slice_subrange(c, offset, valid_end)),
        );
        assert(encode_utf8(valid@) == c@.subrange(offset as int, valid_end as int));
        encode_valid_zip_utf8(&mut output, valid.as_str(), offset, c.len(), reserved);
        proof {
            lemma_run_is_encoded(c@, offset as int, valid_end as int, reserved);
            assert(encode_utf8(output@) + encoded_from(c@, valid_end as int, reserved) =~= written
                + encoded_from(c@, offset as int, reserved));
        }
        if valid_end < c.len() {
            // The byte belongs to no scalar.
            let ghost before = encode_utf8(output@);
            encode_zip_byte_as_percent(&mut output, c[valid_end]);
            proof {
                if c@[valid_end as int] < 128 {
                    lemma_ascii_scalar(c@, valid_end as int);
                }
                assert(encode_utf8(output@) + encoded_from(c@, valid_end + 1, reserved) =~= before
                    + encoded_from(c@, valid_end as int, reserved));
            }
            offset = valid_end + 1;
        } else {
            offset = valid_end;
        }
    }
    assert(encode_utf8(output@) =~= encoded(c@));
    output
}

/// The end of the longest stretch of text from an index on.
fn valid_run_end(c: &[u8], from: usize) -> (end: usize)
    requires
        from <= c@.len(),
    ensures
        from <= end <= c@.len(),
        valid_utf8(c@.subrange(from as int, end as int)),
        end < c@.len() ==> !valid_first_scalar(c@.skip(end as int)),
{
    let mut end: usize = from;
    assert(c@.subrange(from as int, from as int) =~= Seq::<u8>::empty());
    while end < c.len()
        invariant_except_break
            from <= end <= c@.len(),
            valid_utf8(c@.subrange(from as int, end as int)),
        ensures
            from <= end <= c@.len(),
            valid_utf8(c@.subrange(from as int, end as int)),
            end < c@.len() ==> !valid_first_scalar(c@.skip(end as int)),
        decreases c.len() - end,
    {
        let width: usize = scalar_width(c, end);
        if width == 0 {
            break;
        }
        proof {
            let next = end + width;
            let one = c@.subrange(end as int, next);
            lemma_one_scalar(c@, end as int, next);
            valid_utf8_concat(c@.subrange(from as int, end as int), one);
            assert(c@.subrange(from as int, end as int) + one =~= c@.subrange(from as int, next));
        }
        end = end + width;
    }
    end
}

/// The bytes of the scalar at an index are text by themselves.
proof fn lemma_one_scalar(c: Seq<u8>, i: int, next: int)
    requires
        0 <= i < c.len(),
        valid_first_scalar(c.skip(i)),
        next == i + length_of_first_scalar(c.skip(i)),
    ensures
        next <= c.len(),
        valid_utf8(c.subrange(i, next)),
        valid_first_scalar(c.subrange(i, next)),
        length_of_first_scalar(c.subrange(i, next)) == next - i,
{
    let one = c.subrange(i, next);
    let tail = c.skip(i);
    assert(one.len() == next - i);
    assert(forall|k: int| 0 <= k < one.len() ==> one[k] == tail[k]);
    assert(pop_first_scalar(one) =~= Seq::<u8>::empty());
    assert(valid_utf8(Seq::<u8>::empty()));
}

proof fn lemma_ascii_scalar(c: Seq<u8>, i: int)
    requires
        0 <= i < c.len(),
        c[i] < 128,
    ensures
        valid_first_scalar(c.skip(i)),
        length_of_first_scalar(c.skip(i)) == 1,
{
    let b = c[i];
    assert(c.skip(i)[0] == b);
    assert(codepoint_width_1(b) < 128) by (bit_vector)
        requires
            b < 128,
    ;
}

/// Bytes of a scalar beyond ASCII are all beyond ASCII.
proof fn lemma_scalar_bytes_high(c: Seq<u8>, i: int, k: int)
    requires
        0 <= i < c.len(),
        c[i] >= 128,
        valid_first_scalar(c.skip(i)),
        0 <= k < length_of_first_scalar(c.skip(i)),
    ensures
        c[i + k] >= 128,
{
    let tail = c.skip(i);
    assert(tail[0] == c[i]);
    assert(tail[k] == c[i + k]);
}

/// Over a stretch of text, encoding byte by byte and encoding scalar by scalar agree.
proof fn lemma_run_is_encoded(c: Seq<u8>, from: int, end: int, reserved: bool)
    requires
        0 <= from <= end <= c.len(),
        valid_utf8(c.subrange(from, end)),
    ensures
        encoded_from(c, from, reserved) == encoded_run(
            c.subrange(from, end),
            (end - from) as nat,
            from,
            c.len() as int,
            reserved,
        ) + encoded_from(c, end, reserved),
    decreases end - from,
{
    let len = c.len() as int;
    let run = c.subrange(from, end);
    if from == end {
        assert(encoded_from(c, from, reserved) =~= encoded_run(run, 0, from, len, reserved)
            + encoded_from(c, end, reserved));
    } else {
        let tail = c.skip(from);
        assert(forall|k: int| 0 <= k < run.len() ==> run[k] == tail[k]);
        assert(run[0] == c[from]);
        assert(valid_first_scalar(run));
        let w = length_of_first_scalar(run);
        assert(valid_first_scalar(tail) && length_of_first_scalar(tail) == w) by {
            assert(run.len() >= w);
            assert(tail[0] == run[0]);
            if w >= 2 {
                assert(tail[1] == run[1]);
            }
            if w >= 3 {
                assert(tail[2] == run[2]);
            }
            if w >= 4 {
                assert(tail[3] == run[3]);
            }
        }
        let next = from + w;
        assert(pop_first_scalar(run) =~= c.subrange(next, end));
        lemma_run_is_encoded(c, next, end, reserved);
        let rest = c.subrange(next, end);
        // The run splits at the scalar.
        lemma_run_split(run, w as nat, run.len(), from, len, reserved);
        assert(run.skip(w) =~= rest);
        if c[from] >= 128 {
            assert forall|k: int| 0 <= k < w implies #[trigger] run[k] >= 128 by {
                lemma_scalar_bytes_high(c, from, k);
                assert(run[k] == c[from + k]);
            }
            lemma_high_run(run, w as nat, from, len, reserved);
            assert(run.take(w) =~= c.subrange(from, next));
        } else {
            lemma_ascii_scalar(c, from);
            assert(w == 1);
            lemma_run_of_one(run, from, len, reserved);
        }
        assert(encoded_from(c, from, reserved) =~= encoded_run(run, run.len(), from, len, reserved)
            + encoded_from(c, end, reserved));
    }
}

proof fn lemma_run_split(valid: Seq<u8>, k: nat, n: nat, offset: int, len: int, reserved: bool)
    requires
        k <= n <= valid.len(),
    ensures
        encoded_run(valid, n, offset, len, reserved) == encoded_run(
            valid,
            k,
            offset,
            len,
            reserved,
        ) + encoded_run(valid.skip(k as int), (n - k) as nat, offset + k, len, reserved),
    decreases n - k,
{
    if n == k {
        assert(encoded_run(valid, n, offset, len, reserved) =~= encoded_run(
            valid,
            k,
            offset,
            len,
            reserved,
        ) + encoded_run(valid.skip(k as int), 0, offset + k, len, reserved));
    } else {
        lemma_run_split(valid, k, (n - 1) as nat, offset, len, reserved);
        assert(valid.skip(k as int)[n - k - 1] == valid[n - 1]);
        assert(encoded_run(valid, n, offset, len, reserved) =~= encoded_run(
            valid,
            k,
            offset,
            len,
            reserved,
        ) + encoded_run(valid.skip(k as int), (n - k) as nat, offset + k, len, reserved));
    }
}

proof fn lemma_run_of_one(valid: Seq<u8>, offset: int, len: int, reserved: bool)
    requires
        valid.len() > 0,
        valid[0] < 128,
    ensures
        encoded_run(valid, 1, offset, len, reserved) == encoded_byte(
            valid[0],
            offset,
            len,
            reserved,
        ),
{
    assert(encoded_run(valid, 0, offset, len, reserved) =~= Seq::<u8>::empty());
    assert(encoded_run(valid, 1, offset, len, reserved) =~= encoded_byte(
        valid[0],
        offset,
        len,
        reserved,
    ));
}

proof fn lemma_high_run(valid: Seq<u8>, n: nat, offset: int, len: int, reserved: bool)
    requires
        n <= valid.len(),
        forall|k: int| 0 <= k < n ==> #[trigger] valid[k] >= 128,
    ensures
        encoded_run(valid, n, offset, len, reserved) == valid.take(n as int),
    decreases n,
{
    if n == 0 {
        assert(encoded_run(valid, n, offset, len, reserved) =~= valid.take(0));
    } else {
        lemma_high_run(valid, (n - 1) as nat, offset, len, reserved);
        assert(valid.take(n as int) =~= valid.take(n - 1) + seq![valid[n - 1]]);
    }
}


// ---------------------------------------------------------------------------------------------
// What encoding guarantees
// ---------------------------------------------------------------------------------------------

pub open spec fn hex_value(b: u8) -> u8 {
    if b <= 57 {
        (b - 48) as u8
    } else {
        (b - 55) as u8
    }
}

/// An encoded component, decoded.
pub open spec fn decoded(s: Seq<u8>) -> Seq<u8>
    decreases s.len(),
{
    if s.len() == 0 {
        Seq::empty()
    } else if s[0] == PERCENT && s.len() >= 3 {
        seq![(hex_value(s[1]) * 16 + hex_value(s[2])) as u8] + decoded(s.skip(3))
    } else {
        seq![s[0]] + decoded(s.skip(1))
    }
}

proof fn lemma_decode_plain(plain: Seq<u8>, rest: Seq<u8>)
    requires
        forall|k: int| 0 <= k < plain.len() ==> #[trigger] plain[k] != PERCENT,
    ensures
        decoded(plain + rest) == plain + decoded(rest),
    decreases plain.len(),
{
    if plain.len() == 0 {
        assert(plain + rest =~= rest);
        assert(plain + decoded(rest) =~= decoded(rest));
    } else {
        let shorter = plain.skip(1);
        assert forall|k: int| 0 <= k < shorter.len() implies #[trigger] shorter[k] != PERCENT by {
            assert(shorter[k] == plain[k + 1]);
        }
        lemma_decode_plain(shorter, rest);
        assert((plain + rest).skip(1) =~= shorter + rest);
        assert((plain + rest)[0] == plain[0]);
        assert(decoded(plain + rest) =~= plain + decoded(rest));
    }
}

proof fn lemma_decode_percent(b: u8, rest: Seq<u8>)
    ensures
        decoded(percent_encoded(b) + rest) == seq![b] + decoded(rest),
{
    let s = percent_encoded(b) + rest;
    assert(s.skip(3) =~= rest);
    assert(s[0] == PERCENT);
    assert(s[1] == hex_digit(b / 16) && s[2] == hex_digit(b % 16));
    assert(hex_value(hex_digit(b / 16)) == b / 16);
    assert(hex_value(hex_digit(b % 16)) == b % 16);
    assert((b / 16) * 16 + b % 16 == b);
}

/// Bytes that may stand in an encoded component.
pub open spec fn clean(s: Seq<u8>) -> bool {
    &&& forall|i: int| 0 <= i < s.len() ==> !unportable(#[trigger] s[i])
    &&& well_escaped(s)
}

proof fn lemma_clean_concat(a: Seq<u8>, b: Seq<u8>)
    requires
        clean(a),
        clean(b),
    ensures
        clean(a + b),
{
    let s = a + b;
    assert forall|i: int| 0 <= i < s.len() implies !unportable(#[trigger] s[i]) by {
        if i < a.len() {
            assert(s[i] == a[i]);
        } else {
            assert(s[i] == b[i - a.len()]);
        }
    }
    assert forall|i: int| 0 <= i < s.len() && #[trigger] s[i] == PERCENT implies i + 2 < s.len()
        && upper_hex(s[i + 1]) && upper_hex(s[i + 2]) by {
        if i < a.len() {
            assert(s[i] == a[i]);
            assert(s[i + 1] == a[i + 1] && s[i + 2] == a[i + 2]);
        } else {
            let k = i - a.len();
            assert(s[i] == b[k]);
            assert(s[i + 1] == b[k + 1] && s[i + 2] == b[k + 2]);
        }
    }
}

proof fn lemma_hex_digits(b: u8)
    ensures
        upper_hex(hex_digit(b / 16)),
        upper_hex(hex_digit(b % 16)),
{
    assert(b / 16 < 16 && b % 16 < 16);
}

/// What one encoded byte contributes.
proof fn lemma_encoded_byte(b: u8, i: int, len: int, reserved: bool)
    ensures
        ({
            let head = encoded_byte(b, i, len, reserved);
            &&& clean(head)
            &&& valid_utf8(head)
            &&& 1 <= head.len() <= 3
            &&& i + 1 == len ==> head.last() != DOT && head.last() != SPACE
        }),
{
    let head = encoded_byte(b, i, len, reserved);
    lemma_hex_digits(b);
    assert(clean(head));
    assert(forall|k: int| 0 <= k < head.len() ==> #[trigger] head[k] < 128);
    crate::text::lemma_ascii_is_text(head);
}

/// Decoding undoes the encoding of one byte.
proof fn lemma_decode_byte(b: u8, i: int, len: int, reserved: bool, rest: Seq<u8>)
    ensures
        decoded(encoded_byte(b, i, len, reserved) + rest) == seq![b] + decoded(rest),
{
    if stays(b, i, len, reserved) {
        lemma_decode_plain(seq![b], rest);
    } else {
        lemma_decode_percent(b, rest);
    }
}

/// What one scalar beyond ASCII contributes.
proof fn lemma_encoded_scalar(c: Seq<u8>, i: int, next: int)
    requires
        0 <= i < c.len(),
        c[i] >= 128,
        valid_first_scalar(c.skip(i)),
        next == i + length_of_first_scalar(c.skip(i)),
    ensures
        i < next <= c.len(),
        clean(c.subrange(i, next)),
        valid_utf8(c.subrange(i, next)),
        forall|k: int| 0 <= k < next - i ==> #[trigger] c.subrange(i, next)[k] >= 128,
{
    let head = c.subrange(i, next);
    lemma_one_scalar(c, i, next);
    assert forall|k: int| 0 <= k < next - i implies #[trigger] head[k] >= 128 by {
        lemma_scalar_bytes_high(c, i, k);
    }
}

/// Everything that holds of a component from `i` on once it is encoded.
proof fn lemma_encoded_from(c: Seq<u8>, i: int, reserved: bool)
    requires
        0 <= i <= c.len(),
    ensures
        clean(encoded_from(c, i, reserved)),
        valid_utf8(encoded_from(c, i, reserved)),
        c.len() - i <= encoded_from(c, i, reserved).len() <= 3 * (c.len() - i),
        i < c.len() ==> encoded_from(c, i, reserved).last() != DOT && encoded_from(
            c,
            i,
            reserved,
        ).last() != SPACE,
        decoded(encoded_from(c, i, reserved)) == c.skip(i),
    decreases c.len() - i,
{
    let e = encoded_from(c, i, reserved);
    if i >= c.len() {
        assert(e =~= Seq::<u8>::empty());
        assert(c.skip(i) =~= Seq::<u8>::empty());
    } else {
        let scalar = c[i] >= 128 && valid_first_scalar(c.skip(i));
        let next = if scalar {
            i + length_of_first_scalar(c.skip(i))
        } else {
            i + 1
        };
        let head = if scalar {
            c.subrange(i, next)
        } else {
            encoded_byte(c[i], i, c.len() as int, reserved)
        };
        let rest = encoded_from(c, next, reserved);
        if scalar {
            lemma_encoded_scalar(c, i, next);
        } else {
            lemma_encoded_byte(c[i], i, c.len() as int, reserved);
        }
        lemma_encoded_from(c, next, reserved);
        assert(e == head + rest);
        lemma_encoded_join(c, i, next, reserved, head, rest);
    }
}

/// The step of the induction on where encoding starts.
proof fn lemma_encoded_join(
    c: Seq<u8>,
    i: int,
    next: int,
    reserved: bool,
    head: Seq<u8>,
    rest: Seq<u8>,
)
    requires
        0 <= i < next <= c.len(),
        clean(head),
        clean(rest),
        valid_utf8(head),
        valid_utf8(rest),
        c.len() - next <= rest.len() <= 3 * (c.len() - next),
        next < c.len() ==> rest.last() != DOT && rest.last() != SPACE,
        decoded(rest) == c.skip(next),
        (head == c.subrange(i, next) && forall|k: int|
            0 <= k < head.len() ==> #[trigger] head[k] >= 128) || (next == i + 1 && head
            == encoded_byte(c[i], i, c.len() as int, reserved)),
        next - i <= head.len() <= 3 * (next - i),
        next == c.len() ==> head.last() != DOT && head.last() != SPACE,
    ensures
        clean(head + rest),
        valid_utf8(head + rest),
        c.len() - i <= (head + rest).len() <= 3 * (c.len() - i),
        (head + rest).last() != DOT && (head + rest).last() != SPACE,
        decoded(head + rest) == c.skip(i),
{
    lemma_clean_concat(head, rest);
    valid_utf8_concat(head, rest);
    if rest.len() == 0 {
        assert((head + rest).last() == head.last());
    } else {
        assert((head + rest).last() == rest.last());
    }
    if next == i + 1 && head == encoded_byte(c[i], i, c.len() as int, reserved) {
        lemma_decode_byte(c[i], i, c.len() as int, reserved, rest);
        assert(seq![c[i]] + c.skip(i + 1) =~= c.skip(i));
    } else {
        lemma_decode_plain(head, rest);
        assert(head + c.skip(next) =~= c.skip(i));
    }
}

/// As long as an encoded component shows no percent sign, it repeats the component.
proof fn lemma_unescaped_prefix(c: Seq<u8>, i: int, reserved: bool, k: int)
    requires
        0 <= i <= c.len(),
        0 <= k <= encoded_from(c, i, reserved).len(),
        forall|j: int| 0 <= j < k ==> #[trigger] encoded_from(c, i, reserved)[j] != PERCENT,
    ensures
        i + k <= c.len(),
        encoded_from(c, i, reserved).take(k) == c.subrange(i, i + k),
    decreases c.len() - i,
{
    let e = encoded_from(c, i, reserved);
    if i >= c.len() || k == 0 {
        assert(e.take(k) =~= c.subrange(i, i + k));
    } else if c[i] >= 128 && valid_first_scalar(c.skip(i)) {
        let next = i + length_of_first_scalar(c.skip(i));
        let head = c.subrange(i, next);
        let rest = encoded_from(c, next, reserved);
        lemma_one_scalar(c, i, next);
        if k <= head.len() {
            assert(e.take(k) =~= c.subrange(i, i + k));
        } else {
            assert forall|j: int| 0 <= j < k - head.len() implies #[trigger] rest[j] != PERCENT by {
                assert(rest[j] == e[j + head.len()]);
            }
            lemma_unescaped_prefix(c, next, reserved, k - head.len());
            assert(e.take(k) =~= head + rest.take(k - head.len()));
            assert(head + c.subrange(next, next + k - head.len()) =~= c.subrange(i, i + k));
        }
    } else {
        let head = encoded_byte(c[i], i, c.len() as int, reserved);
        let rest = encoded_from(c, i + 1, reserved);
        assert(e[0] == head[0]);
        assert(stays(c[i], i, c.len() as int, reserved));
        assert forall|j: int| 0 <= j < k - 1 implies #[trigger] rest[j] != PERCENT by {
            assert(rest[j] == e[j + 1]);
        }
        lemma_unescaped_prefix(c, i + 1, reserved, k - 1);
        assert(e.take(k) =~= head + rest.take(k - 1));
        assert(head + c.subrange(i + 1, i + k) =~= c.subrange(i, i + k));
    }
}

proof fn lemma_stem_end(c: Seq<u8>, i: int)
    requires
        0 <= i <= c.len(),
    ensures
        i <= stem_end(c, i) <= c.len(),
        forall|j: int| i <= j < stem_end(c, i) ==> #[trigger] c[j] != DOT && c[j] != COLON,
        stem_end(c, i) < c.len() ==> c[stem_end(c, i)] == DOT || c[stem_end(c, i)] == COLON,
    decreases c.len() - i,
{
    if i < c.len() && c[i] != DOT && c[i] != COLON {
        lemma_stem_end(c, i + 1);
    }
}

proof fn lemma_stem_end_unique(c: Seq<u8>, i: int, end: int)
    requires
        0 <= i <= end <= c.len(),
        forall|j: int| i <= j < end ==> #[trigger] c[j] != DOT && c[j] != COLON,
        end < c.len() ==> c[end] == DOT || c[end] == COLON,
    ensures
        stem_end(c, i) == end,
    decreases end - i,
{
    if i < end {
        lemma_stem_end_unique(c, i + 1, end);
    }
}

proof fn lemma_trimmed(c: Seq<u8>, n: int)
    requires
        0 <= n <= c.len(),
    ensures
        0 <= trimmed(c, n) <= n,
        forall|j: int| trimmed(c, n) <= j < n ==> blank(#[trigger] c[j]),
    decreases n,
{
    if n > 0 && blank(c[n - 1]) {
        lemma_trimmed(c, n - 1);
    }
}

proof fn lemma_trimmed_same(c: Seq<u8>, d: Seq<u8>, n: int)
    requires
        0 <= n <= c.len(),
        n <= d.len(),
        c.take(n) == d.take(n),
    ensures
        trimmed(c, n) == trimmed(d, n),
    decreases n,
{
    if n > 0 {
        assert(c[n - 1] == c.take(n)[n - 1]);
        assert(d[n - 1] == d.take(n)[n - 1]);
        if blank(c[n - 1]) {
            assert(c.take(n - 1) =~= c.take(n).take(n - 1));
            assert(d.take(n - 1) =~= d.take(n).take(n - 1));
            lemma_trimmed_same(c, d, n - 1);
        }
    }
}

/// A device name starts with a letter and holds no percent sign.
proof fn lemma_device_stem_bytes(s: Seq<u8>)
    requires
        device_stem(s),
    ensures
        s.len() >= 3,
        65 <= s[0] <= 122,
        forall|j: int| 0 <= j < s.len() ==> #[trigger] s[j] != PERCENT,
{
    assert forall|prefix: Seq<u8>| #[trigger] numbered_device(s, prefix) && (prefix == com()
        || prefix == lpt()) implies 65 <= s[0] <= 122 && s.len() >= 3 && forall|j: int|
        0 <= j < s.len() ==> #[trigger] s[j] != PERCENT by {
        let head = s.take(3);
        let suffix = s.skip(3);
        assert(head[0] == s[0] && head[1] == s[1] && head[2] == s[2]);
        assert(to_lower(head[0]) == to_lower(prefix[0]));
        assert(to_lower(head[1]) == to_lower(prefix[1]));
        assert(to_lower(head[2]) == to_lower(prefix[2]));
        assert forall|j: int| 0 <= j < s.len() implies #[trigger] s[j] != PERCENT by {
            if j >= 3 {
                assert(suffix[j - 3] == s[j]);
            }
        }
    }
    if !numbered_device(s, com()) && !numbered_device(s, lpt()) {
        let which = if same_folded(s, con()) {
            con()
        } else if same_folded(s, prn()) {
            prn()
        } else if same_folded(s, aux()) {
            aux()
        } else {
            nul()
        };
        assert(same_folded(s, which));
        assert(which.len() == 3);
        assert(to_lower(s[0]) == to_lower(which[0]));
        assert(to_lower(s[1]) == to_lower(which[1]));
        assert(to_lower(s[2]) == to_lower(which[2]));
    }
}

/// An encoded component names no device.
proof fn lemma_encoded_is_no_device(c: Seq<u8>)
    requires
        c.len() > 0,
    ensures
        !device_stem(stem(encoded(c))),
{
    let reserved = device_stem(stem(c));
    let e = encoded(c);
    lemma_encoded_from(c, 0, reserved);
    if device_stem(stem(e)) {
        let end = stem_end(e, 0);
        lemma_stem_end(e, 0);
        lemma_trimmed(e, end);
        let t = trimmed(e, end);
        let s = stem(e);
        lemma_device_stem_bytes(s);
        assert(s.len() == t);
        assert(s[0] == e[0]);
        if reserved {
            lemma_stem_end(c, 0);
            lemma_trimmed(c, stem_end(c, 0));
            lemma_device_stem_bytes(stem(c));
            assert(stem(c)[0] == c[0]);
            assert(c[0] < 128);
            assert(e[0] == PERCENT) by {
                assert(!stays(c[0], 0, c.len() as int, reserved));
                assert(e[0] == percent_encoded(c[0])[0]);
            }
            assert(false);
        } else {
            assert forall|j: int| 0 <= j < end implies #[trigger] e[j] != PERCENT by {
                if j < t {
                    assert(s[j] == e[j]);
                } else {
                    assert(blank(e[j]));
                }
            }
            if end < e.len() {
                assert(!unportable(e[end]));
                assert(e[end] == DOT);
                lemma_unescaped_prefix(c, 0, reserved, end + 1);
                assert(e.take(end + 1)[end] == e[end]);
                assert(c.subrange(0, end + 1)[end] == c[end]);
                assert(e.take(end) =~= e.take(end + 1).take(end));
                assert(c.take(end) =~= c.subrange(0, end + 1).take(end));
            } else {
                lemma_decode_plain(e, Seq::empty());
                assert(e + Seq::<u8>::empty() =~= e);
                assert(decoded(e) =~= e);
                assert(c.skip(0) =~= c);
                assert(c == e);
            }
            assert(c.take(end) == e.take(end));
            assert forall|j: int| 0 <= j < end implies #[trigger] c[j] != DOT && c[j] != COLON by {
                assert(c.take(end)[j] == c[j]);
                assert(e.take(end)[j] == e[j]);
            }
            lemma_stem_end_unique(c, 0, end);
            lemma_trimmed_same(c, e, end);
            assert(stem(c) =~= stem(e)) by {
                assert(c.take(t) =~= c.take(end).take(t));
                assert(e.take(t) =~= e.take(end).take(t));
            }
            assert(false);
        }
    }
}

/// An encoded component is one ordinary name on every platform.
pub proof fn law_encoded_component_is_portable(c: Seq<u8>)
    requires
        c.len() > 0,
    ensures
        portable(encoded(c)),
        slashless(encoded(c)),
        valid_utf8(encoded(c)),
        encoded(c).len() <= 3 * c.len(),
{
    let reserved = device_stem(stem(c));
    lemma_encoded_from(c, 0, reserved);
    lemma_encoded_is_no_device(c);
    assert forall|i: int| 0 <= i < encoded(c).len() implies #[trigger] encoded(c)[i] != SLASH by {
        assert(!unportable(encoded(c)[i]));
    }
}

/// Encoding loses nothing: a component can be read back from its encoded form.
pub proof fn law_encoding_is_reversible(c: Seq<u8>)
    ensures
        decoded(encoded(c)) == c,
{
    lemma_encoded_from(c, 0, device_stem(stem(c)));
    assert(c.skip(0) =~= c);
}


// ---------------------------------------------------------------------------------------------
// Entry names of paths
// ---------------------------------------------------------------------------------------------

/// Whether a path can be an entry: it has components, all of them names without a zero byte.
pub open spec fn archivable(path: Seq<Part>) -> bool {
    &&& path.len() > 0
    &&& forall|i: int|
        0 <= i < path.len() ==> (#[trigger] path[i] matches Part::Normal(name) && !name.contains(0))
}

/// The names of a path's components.
pub open spec fn names_of(path: Seq<Part>) -> Seq<Seq<u8>> {
    path.map_values(|part: Part| part->Normal_0)
}

/// The components of an entry's name.
pub open spec fn entry_components(names: Seq<Seq<u8>>) -> Seq<Seq<u8>> {
    seq![top_level()] + names.map_values(|name: Seq<u8>| encoded(name))
}

/// The name of the entry for a path with these components.
pub open spec fn entry_bytes(names: Seq<Seq<u8>>) -> Seq<u8> {
    slashed(entry_components(names))
}

proof fn lemma_slashed_is_text(parts: Seq<Seq<u8>>)
    requires
        forall|i: int| 0 <= i < parts.len() ==> valid_utf8(#[trigger] parts[i]),
    ensures
        valid_utf8(slashed(parts)),
    decreases parts.len(),
{
    if parts.len() == 0 {
        assert(valid_utf8(Seq::<u8>::empty()));
    } else if parts.len() > 1 {
        let init = parts.drop_last();
        assert forall|i: int| 0 <= i < init.len() implies valid_utf8(#[trigger] init[i]) by {
            assert(init[i] == parts[i]);
        }
        lemma_slashed_is_text(init);
        crate::text::lemma_ascii_is_text(seq![SLASH]);
        valid_utf8_concat(slashed(init), seq![SLASH]);
        assert(slashed(init) + seq![SLASH] =~= slashed(init).push(SLASH));
        assert(parts.last() == parts[parts.len() - 1]);
        valid_utf8_concat(slashed(init).push(SLASH), parts.last());
    }
}

proof fn lemma_slashed_bytes(parts: Seq<Seq<u8>>, byte: u8)
    requires
        byte != SLASH,
        forall|i: int| 0 <= i < parts.len() ==> !(#[trigger] parts[i]).contains(byte),
    ensures
        !slashed(parts).contains(byte),
    decreases parts.len(),
{
    if parts.len() > 1 {
        let init = parts.drop_last();
        assert forall|i: int| 0 <= i < init.len() implies !(#[trigger] init[i]).contains(byte) by {
            assert(init[i] == parts[i]);
        }
        lemma_slashed_bytes(init, byte);
        let front = slashed(init).push(SLASH);
        let last = parts.last();
        assert(last == parts[parts.len() - 1]);
        if slashed(parts).contains(byte) {
            let k = choose|k: int| 0 <= k < slashed(parts).len() && slashed(parts)[k] == byte;
            if k < slashed(init).len() {
                assert(slashed(init)[k] == byte);
            } else if k == slashed(init).len() {
                assert(front[k] == SLASH);
            } else {
                assert(last[k - front.len()] == byte);
            }
        }
    }
}

/// The components of an entry's name satisfy what an entry's components must.
proof fn lemma_entry_components(names: Seq<Seq<u8>>)
    requires
        forall|i: int| 0 <= i < names.len() ==> (#[trigger] names[i]).len() > 0,
    ensures
        forall|i: int|
            0 <= i < entry_components(names).len() ==> slashless(
                #[trigger] entry_components(names)[i],
            ) && valid_utf8(entry_components(names)[i]) && !entry_components(names)[i].contains(0),
        forall|i: int|
            1 <= i < entry_components(names).len() ==> portable(
                #[trigger] entry_components(names)[i],
            ),
        entry_components(names)[0] == top_level(),
        entry_components(names).len() == names.len() + 1,
{
    let all = entry_components(names);
    assert forall|i: int| 0 <= i < all.len() implies slashless(#[trigger] all[i]) && valid_utf8(
        all[i],
    ) && !all[i].contains(0) && (i >= 1 ==> portable(all[i])) by {
        if i == 0 {
            lemma_top_level();
            assert(forall|k: int| 0 <= k < top_level().len() ==> 97 <= #[trigger] top_level()[k]);
            assert(forall|k: int| 0 <= k < top_level().len() ==> #[trigger] top_level()[k] < 128);
            crate::text::lemma_ascii_is_text(top_level());
        } else {
            let name = names[i - 1];
            assert(all[i] == encoded(name));
            law_encoded_component_is_portable(name);
            if all[i].contains(0) {
                let k = choose|k: int| 0 <= k < all[i].len() && all[i][k] == 0;
                assert(!unportable(all[i][k]));
            }
        }
    }
}

/// The name made for a path passes validation unless it is too long, splits back into its
/// components, and is text.
pub proof fn law_made_names_are_entry_names(names: Seq<Seq<u8>>)
    requires
        names.len() > 0,
        forall|i: int| 0 <= i < names.len() ==> (#[trigger] names[i]).len() > 0,
    ensures
        entry_name(entry_bytes(names), false) <==> entry_bytes(names).len()
            <= ZIP_ENTRY_NAME_MAX_BYTES,
        stretches(entry_bytes(names)) == entry_components(names),
        valid_utf8(entry_bytes(names)),
{
    let all = entry_components(names);
    lemma_entry_components(names);
    lemma_stretches_of_slashed(all);
    lemma_slashed_is_text(all);
    lemma_slashed_bytes(all, 0);
    let last = all[all.len() - 1];
    assert(portable(last));
    assert(entry_bytes(names) == slashed(all.drop_last()).push(SLASH) + last);
    assert(entry_bytes(names).last() == last.last());
    assert(!unportable(last[last.len() - 1]));
}

/// Entries of different paths have different names.
pub proof fn law_entry_names_are_unambiguous(a: Seq<Seq<u8>>, b: Seq<Seq<u8>>)
    requires
        a.len() > 0,
        b.len() > 0,
        forall|i: int| 0 <= i < a.len() ==> (#[trigger] a[i]).len() > 0,
        forall|i: int| 0 <= i < b.len() ==> (#[trigger] b[i]).len() > 0,
        entry_bytes(a) == entry_bytes(b),
    ensures
        a == b,
{
    law_made_names_are_entry_names(a);
    law_made_names_are_entry_names(b);
    let all_a = entry_components(a);
    let all_b = entry_components(b);
    assert(all_a == all_b);
    assert(a.len() == b.len());
    assert forall|i: int| 0 <= i < a.len() implies a[i] == b[i] by {
        assert(all_a[i + 1] == encoded(a[i]));
        assert(all_b[i + 1] == encoded(b[i]));
        law_encoding_is_reversible(a[i]);
        law_encoding_is_reversible(b[i]);
    }
    assert(a =~= b);
}

/// The lengths of byte strings, with one more for each.
pub open spec fn spread(parts: Seq<Seq<u8>>) -> int
    decreases parts.len(),
{
    if parts.len() == 0 {
        0
    } else {
        spread(parts.drop_last()) + parts.last().len() + 1
    }
}

proof fn lemma_spread_of_stretches(path: Seq<u8>)
    ensures
        spread(stretches(path)) == path.len() + 1,
    decreases path.len(),
{
    if path.len() == 0 {
        let all = stretches(path);
        assert(all.drop_last() =~= Seq::<Seq<u8>>::empty());
        assert(spread(all) == spread(all.drop_last()) + all.last().len() + 1);
    } else {
        let before = stretches(path.drop_last());
        lemma_spread_of_stretches(path.drop_last());
        lemma_stretches_nonempty(path.drop_last());
        let after = stretches(path);
        if path.last() == SLASH {
            assert(after.drop_last() =~= before);
        } else {
            assert(after.drop_last() =~= before.drop_last());
        }
    }
}

proof fn lemma_spread_of_parts(all: Seq<Seq<u8>>, n: nat)
    requires
        n <= all.len(),
        forall|i: int|
            0 <= i < parts_of(all, n).len() ==> #[trigger] parts_of(
                all,
                n,
            )[i] is Normal,
    ensures
        spread(names_of(parts_of(all, n))) <= spread(all.take(n as int)),
    decreases n,
{
    let found = parts_of(all, n);
    if n == 0 {
        assert(names_of(found) =~= Seq::<Seq<u8>>::empty());
        assert(all.take(0) =~= Seq::<Seq<u8>>::empty());
    } else {
        let before = parts_of(all, (n - 1) as nat);
        assert forall|i: int| 0 <= i < before.len() implies #[trigger] before[i] is Normal by {
            assert(found[i] == before[i]);
        }
        lemma_spread_of_parts(all, (n - 1) as nat);
        assert(all.take(n as int).drop_last() =~= all.take(n - 1));
        assert(all.take(n as int).last() == all[n - 1]);
        match stretch_part(all[n - 1], n == 1) {
            Some(part) => {
                assert(found[found.len() - 1] == part);
                assert(names_of(found).drop_last() =~= names_of(before));
                assert(names_of(found).last() == all[n - 1]);
            },
            None => {},
        }
    }
}

proof fn lemma_slashed_len(parts: Seq<Seq<u8>>)
    requires
        parts.len() > 0,
    ensures
        slashed(parts).len() + 1 == spread(parts),
    decreases parts.len(),
{
    if parts.len() > 1 {
        lemma_slashed_len(parts.drop_last());
    } else {
        assert(parts.drop_last() =~= Seq::<Seq<u8>>::empty());
        assert(spread(parts.drop_last()) == 0);
    }
}

proof fn lemma_encoded_spread(names: Seq<Seq<u8>>, n: nat)
    requires
        n <= names.len(),
        forall|i: int| 0 <= i < names.len() ==> (#[trigger] names[i]).len() > 0,
    ensures
        spread(entry_components(names).take((n + 1) as int)) <= 8 + 3 * spread(names.take(n as int)) - 2 * n,
        spread(names.take(n as int)) >= n,
    decreases n,
{
    let all = entry_components(names);
    if n == 0 {
        lemma_top_level();
        assert(all.take(1).drop_last() =~= Seq::<Seq<u8>>::empty());
        assert(all.take(1).last() == top_level());
        assert(names.take(0) =~= Seq::<Seq<u8>>::empty());
        assert(spread(all.take(1).drop_last()) == 0);
    } else {
        lemma_encoded_spread(names, (n - 1) as nat);
        assert(all.take((n + 1) as int).drop_last() =~= all.take(n as int));
        assert(all.take((n + 1) as int).last() == encoded(names[n - 1]));
        assert(names.take(n as int).drop_last() =~= names.take(n - 1));
        assert(names.take(n as int).last() == names[n - 1]);
        law_encoded_component_is_portable(names[n - 1]);
    }
}

/// A made name is at most three times as long as the path it was made for, beside the
/// top-level directory.
pub proof fn law_made_names_are_bounded(path: Seq<u8>)
    requires
        archivable(parts(path)),
    ensures
        entry_bytes(names_of(parts(path))).len() <= top_level().len() + 1 + 3 * path.len(),
        entry_bytes(names_of(parts(path))).take(8) == top_level().push(SLASH),
{
    let names = names_of(parts(path));
    let all = stretches(path);
    let found = parts_of(all, all.len());
    lemma_names_nonempty(path);
    lemma_top_level();
    assert(parts(path)[0] is Normal);
    assert(parts(path) == found);
    lemma_spread_of_parts(all, all.len());
    assert(all.take(all.len() as int) =~= all);
    lemma_spread_of_stretches(path);
    lemma_encoded_spread(names, names.len());
    assert(names.take(names.len() as int) =~= names);
    let made = entry_components(names);
    assert(made.take((names.len() + 1) as int) =~= made);
    lemma_slashed_len(made);
    lemma_slashed_head(made);
}

proof fn lemma_slashed_head(parts: Seq<Seq<u8>>)
    requires
        parts.len() > 1,
    ensures
        slashed(parts).len() > parts[0].len(),
        slashed(parts).take((parts[0].len() + 1) as int) == parts[0].push(SLASH),
    decreases parts.len(),
{
    let init = parts.drop_last();
    assert(init[0] == parts[0]);
    if init.len() > 1 {
        lemma_slashed_head(init);
        assert(slashed(parts).take((parts[0].len() + 1) as int) =~= slashed(init).take((parts[0].len() + 1) as int));
    } else {
        assert(slashed(init) == init[0]);
        assert(slashed(parts).take((parts[0].len() + 1) as int) =~= parts[0].push(SLASH));
    }
}

/// The names of an archivable path are not empty.
proof fn lemma_names_nonempty(path: Seq<u8>)
    requires
        archivable(parts(path)),
    ensures
        names_of(parts(path)).len() > 0,
        forall|i: int|
            0 <= i < names_of(parts(path)).len() ==> (#[trigger] names_of(parts(path))[i]).len()
                > 0,
{
    lemma_parts_are_nameful(path);
    assert(parts(path)[0] is Normal);
    let names = names_of(parts(path));
    assert forall|i: int| 0 <= i < names.len() implies (#[trigger] names[i]).len() > 0 by {
        assert(parts(path)[i] is Normal);
    }
}

/// The first component of a path that cannot stand in an entry's name.
pub open spec fn first_unarchivable(path: Seq<Part>, i: int) -> bool {
    &&& 0 <= i < path.len()
    &&& !(path[i] matches Part::Normal(name) && !name.contains(0))
    &&& forall|j: int|
        0 <= j < i ==> (#[trigger] path[j] matches Part::Normal(name) && !name.contains(0))
}

/// The failure of a path that cannot be an entry. `shown` is the path as messages show it.
pub open spec fn path_fault(path: Seq<Part>, shown: Seq<char>, fault: Fault) -> bool {
    if path.len() == 0 {
        fault == said("empty ZIP entry path"@)
    } else {
        exists|i: int|
            #![trigger first_unarchivable(path, i)]
            first_unarchivable(path, i) && fault == (if path[i] is Normal {
                said("unsafe ZIP entry path "@ + shown)
            } else {
                said("unsafe structural ZIP entry path "@ + shown)
            })
    }
}

/// What making an entry name for a path comes to.
pub open spec fn made_entry_name(
    path: Seq<Part>,
    shown: Seq<char>,
    result: Result<String, AnyError>,
) -> bool {
    let bytes = entry_bytes(names_of(path));
    match result {
        Ok(name) => {
            &&& archivable(path)
            &&& bytes.len() <= ZIP_ENTRY_NAME_MAX_BYTES
            &&& encode_utf8(name@) == bytes
            &&& entry_name(encode_utf8(name@), false)
        },
        Err(e) => if archivable(path) {
            bytes.len() > ZIP_ENTRY_NAME_MAX_BYTES && e@ == name_too_long(bytes.len())
        } else {
            path_fault(path, shown, e@)
        },
    }
}

/// The entry name for a path relative to the archived directory. `shown` is the path as messages
/// show it, between quotation marks and with escapes for what is not text: its `Debug` form as a
/// path of the system.
pub fn validated_zip_entry_name(path: &[u8], shown: &str) -> (result: Result<String, AnyError>)
    ensures
        made_entry_name(parts(path@), shown@, result),
{
    proof {
        lemma_parts_are_nameful(path@);
    }
    let found = components(path);
    entry_name_of_components(&found, shown)
}

fn unsafe_path(text: &str, shown: &str) -> (error: AnyError)
    ensures
        error@ == said(text@ + shown@),
{
    AnyError::message(text2(text, shown).as_str())
}

/// The entry name for a path that is given by its components.
pub fn entry_name_of_components(found: &Vec<Component>, shown: &str) -> (result: Result<
    String,
    AnyError,
>)
    requires
        nameful(component_views(found@)),
    ensures
        made_entry_name(component_views(found@), shown@, result),
{
    let ghost views = component_views(found@);
    let ghost names = names_of(views);
    let mut output = TextBuilder::new();
    output.push(ZIP_TOP_LEVEL_DIRECTORY);
    let mut i: usize = 0;
    proof {
        let all = entry_components(names);
        assert(output.view() =~= "archive"@);
        assert(all.take(1) =~= seq![top_level()]);
        assert(slashed(all.take(1)) == top_level());
    }
    while i < found.len()
        invariant
            i <= found@.len(),
            component_views(found@) == views,
            nameful(views),
            names == names_of(views),
            forall|j: int|
                0 <= j < i ==> (#[trigger] views[j] matches Part::Normal(name) && !name.contains(
                    0,
                )),
            output.wf(),
            encode_utf8(output.view()) == slashed(entry_components(names).take(i + 1)),
        decreases found.len() - i,
    {
        assert(views[i as int] == found@[i as int].view());
        match &found[i] {
            Component::Normal { name } => {
                if name.len() == 0 || contains_byte(name.as_slice(), 0) {
                    assert(first_unarchivable(views, i as int));
                    return Err(unsafe_path("unsafe ZIP entry path ", shown));
                }
                let ghost before = output.view();
                let piece = encode_zip_component(name.as_slice());
                output.push("/");
                output.push(piece.as_str());
                proof {
                    let all = entry_components(names);
                    assert(all.take(i + 2).drop_last() =~= all.take(i + 1));
                    assert(all.take(i + 2).last() == encoded(name@));
                    lemma_slash_text();
                    lemma_encode_concat(before, "/"@);
                    lemma_encode_concat(before + "/"@, piece@);
                    assert(encode_utf8(before) + seq![SLASH] =~= encode_utf8(before).push(SLASH));
                }
            },
            _ => {
                assert(first_unarchivable(views, i as int));
                return Err(unsafe_path("unsafe structural ZIP entry path ", shown));
            },
        }
        i = i + 1;
    }
    if found.len() == 0 {
        return Err(AnyError::message("empty ZIP entry path"));
    }
    proof {
        let all = entry_components(names);
        assert(all.take((found@.len() + 1) as int) =~= all);
        assert(archivable(views));
        assert forall|i: int| 0 <= i < names.len() implies (#[trigger] names[i]).len() > 0 by {
            assert(views[i] is Normal);
        }
        law_made_names_are_entry_names(names);
    }
    let name = output.finish();
    match validate_zip_entry_name(name.as_str(), false) {
        Ok(()) => Ok(name),
        Err(e) => Err(e),
    }
}

proof fn lemma_slash_text()
    ensures
        encode_utf8("/"@) == seq![SLASH],
{
    reveal_strlit("/");
    lemma_ascii_char(SLASH);
    assert("/"@ =~= seq![SLASH as char]);
}

/// A name that every platform takes as it is: text whose ASCII bytes are none that some platform
/// reserves and no percent sign, which does not end in a dot or a blank, and which does not start
/// with a letter that a device name can start with.
pub open spec fn ordinary(c: Seq<u8>) -> bool {
    &&& valid_utf8(c)
    &&& c.len() > 0
    &&& c.last() != 46 && c.last() != 32
    &&& forall|i: int|
        0 <= i < c.len() ==> {
            &&& 32 <= #[trigger] c[i]
            &&& c[i] != 127 && c[i] != 34 && c[i] != 37 && c[i] != 42 && c[i] != 47 && c[i] != 58
                && c[i] != 60 && c[i] != 62 && c[i] != 63 && c[i] != 92 && c[i] != 124
        }
    &&& c[0] != 67 && c[0] != 99 && c[0] != 80 && c[0] != 112 && c[0] != 65 && c[0] != 97 && c[0]
        != 78 && c[0] != 110 && c[0] != 76 && c[0] != 108
}

proof fn lemma_ordinary_is_no_device(c: Seq<u8>)
    requires
        ordinary(c),
    ensures
        !device_stem(stem(c)),
{
    let s = stem(c);
    if device_stem(s) {
        lemma_device_stem_bytes(s);
        let n = trimmed(c, stem_end(c, 0));
        assert(s.len() >= 3);
        assert(s == c.take(n));
        lemma_stem_end_bound(c, 0);
        lemma_trimmed_bound(c, stem_end(c, 0));
        assert(s[0] == c[0]);
        if same_folded(s, con()) {
            assert(to_lower(s[0]) == to_lower(con()[0]));
        } else if same_folded(s, prn()) {
            assert(to_lower(s[0]) == to_lower(prn()[0]));
        } else if same_folded(s, aux()) {
            assert(to_lower(s[0]) == to_lower(aux()[0]));
        } else if same_folded(s, nul()) {
            assert(to_lower(s[0]) == to_lower(nul()[0]));
        } else if numbered_device(s, com()) {
            assert(to_lower(s.take(3)[0]) == to_lower(com()[0]));
        } else {
            assert(to_lower(s.take(3)[0]) == to_lower(lpt()[0]));
        }
        assert(false);
    }
}

proof fn lemma_trimmed_bound(c: Seq<u8>, n: int)
    requires
        0 <= n <= c.len(),
    ensures
        0 <= trimmed(c, n) <= n,
    decreases n,
{
    if n > 0 && blank(c[n - 1]) {
        lemma_trimmed_bound(c, n - 1);
    }
}

proof fn lemma_stem_end_bound(c: Seq<u8>, i: int)
    requires
        0 <= i <= c.len(),
    ensures
        i <= stem_end(c, i) <= c.len(),
    decreases c.len() - i,
{
    if i < c.len() && c[i] != DOT && c[i] != COLON {
        lemma_stem_end_bound(c, i + 1);
    }
}

proof fn lemma_ordinary_stays_from(c: Seq<u8>, i: int)
    requires
        ordinary(c),
        0 <= i <= c.len(),
        valid_utf8(c.skip(i)),
    ensures
        encoded_from(c, i, false) == c.skip(i),
    decreases c.len() - i,
{
    if i < c.len() {
        let rest = c.skip(i);
        assert(rest.len() > 0);
        assert(valid_first_scalar(rest));
        let width = length_of_first_scalar(rest);
        if c[i] >= 128 {
            let next = i + width;
            assert(pop_first_scalar(rest) =~= c.skip(next));
            lemma_ordinary_stays_from(c, next);
            assert(c.subrange(i, next) + c.skip(next) =~= c.skip(i));
        } else {
            assert(width == 1) by {
                assert(rest[0] == c[i]);
            }
            assert(pop_first_scalar(rest) =~= c.skip(i + 1));
            lemma_ordinary_stays_from(c, i + 1);
            assert(stays(c[i], i, c.len() as int, false));
            assert(seq![c[i]] + c.skip(i + 1) =~= c.skip(i));
        }
    } else {
        assert(c.skip(i) =~= Seq::<u8>::empty());
    }
}

/// An ordinary name, a dotfile among them, stands in an archive as it is.
pub proof fn law_ordinary_names_stay(c: Seq<u8>)
    requires
        ordinary(c),
    ensures
        encoded(c) == c,
        portable(c),
{
    lemma_ordinary_is_no_device(c);
    assert(c.skip(0) =~= c);
    lemma_ordinary_stays_from(c, 0);
    law_encoded_component_is_portable(c);
}

/// The entry of a path of ordinary names lies beneath the top-level directory under these names.
pub proof fn law_entries_keep_ordinary_names(names: Seq<Seq<u8>>)
    requires
        forall|i: int| 0 <= i < names.len() ==> ordinary(#[trigger] names[i]),
    ensures
        entry_bytes(names) == slashed(seq![encode_utf8("archive"@)] + names),
{
    let made = names.map_values(|name: Seq<u8>| encoded(name));
    assert forall|i: int| 0 <= i < names.len() implies #[trigger] made[i] == names[i] by {
        law_ordinary_names_stay(names[i]);
    }
    assert(made =~= names);
}

/// A path can be an entry exactly where it has components and each of them is a name without a
/// zero byte; then the entry has the name that the components make, unless that is too long.
pub proof fn law_paths_make_entries(
    path: Seq<Part>,
    shown: Seq<char>,
    result: Result<String, AnyError>,
)
    requires
        made_entry_name(path, shown, result),
    ensures
        result is Ok <==> {
            &&& path.len() > 0
            &&& forall|i: int|
                0 <= i < path.len() ==> (#[trigger] path[i] matches Part::Normal(name)
                    && !name.contains(0u8))
            &&& entry_bytes(names_of(path)).len() <= 65535
        },
        result matches Ok(name) ==> encode_utf8(name@) == slashed(
            seq![encode_utf8("archive"@)] + names_of(path).map_values(|n: Seq<u8>| encoded(n)),
        ),
{
}

/// A name that stands for a device where archives are unpacked is never kept, in whatever case
/// and with whatever ending it is written.
pub proof fn law_device_names_are_changed(c: Seq<u8>, letters: Seq<u8>)
    requires
        c.len() >= 3,
        c.len() == 3 || c[3] == 46,
        letters == seq![99u8, 111u8, 110u8] || letters == seq![112u8, 114u8, 110u8] || letters
            == seq![97u8, 117u8, 120u8] || letters == seq![110u8, 117u8, 108u8],
        forall|i: int| 0 <= i < 3 ==> #[trigger] c[i] == letters[i] || c[i] == letters[i] - 32,
    ensures
        encoded(c) != c,
{
    assert(c[0] == letters[0] || c[0] == letters[0] - 32);
    assert(c[1] == letters[1] || c[1] == letters[1] - 32);
    assert(c[2] == letters[2] || c[2] == letters[2] - 32);
    reveal_with_fuel(stem_end, 4);
    reveal_with_fuel(trimmed, 2);
    assert(stem_end(c, 0) == 3);
    assert(stem(c) =~= c.take(3));
    let s = stem(c);
    assert(s[0] == c[0] && s[1] == c[1] && s[2] == c[2]);
    assert(device_stem(s)) by {
        assert(same_folded(s, con()) || same_folded(s, prn()) || same_folded(s, aux())
            || same_folded(s, nul()));
    }
    law_encoded_component_is_portable(c);
    assert(!portable(c));
}

/// A portable name can stand on every platform: it holds no separator, no control character and
/// none of the characters that some platforms reserve, and ends in neither a dot nor a space.
pub proof fn law_portable_names(c: Seq<u8>)
    requires
        portable(c),
    ensures
        c.len() > 0,
        c.last() != 46 && c.last() != 32,
        forall|i: int|
            0 <= i < c.len() ==> {
                &&& 32 <= #[trigger] c[i]
                &&& c[i] != 127 && c[i] != 34 && c[i] != 42 && c[i] != 47 && c[i] != 58 && c[i]
                    != 60 && c[i] != 62 && c[i] != 63 && c[i] != 92 && c[i] != 124
            },
{
}

/// An entry's name is safe: it is short enough, lies beneath the top-level directory, ends in a
/// slash exactly where it is a directory's, and holds nothing but portable components and no zero
/// byte.
pub proof fn law_entry_names_are_safe(n: Seq<u8>, directory: bool)
    requires
        entry_name(n, directory),
    ensures
        0 < n.len() <= 65535,
        !n.contains(0u8),
        n.last() == 47u8 <==> directory,
        ({
            let all = stretches(
                if directory {
                    n.drop_last()
                } else {
                    n
                },
            );
            &&& all[0] == encode_utf8("archive"@)
            &&& forall|i: int| 1 <= i < all.len() ==> portable(#[trigger] all[i])
            &&& !directory ==> all.len() > 1
        }),
{
}

/// The name that is made for a path names a directory once a slash is put behind it, and is then
/// an entry's name exactly where it is still short enough.
pub proof fn law_made_names_are_directory_names(names: Seq<Seq<u8>>)
    requires
        names.len() > 0,
        forall|i: int| 0 <= i < names.len() ==> (#[trigger] names[i]).len() > 0,
    ensures
        entry_name(entry_bytes(names).push(47u8), true) <==> entry_bytes(names).len() < 65535,
{
    let all = entry_components(names);
    let n = entry_bytes(names).push(SLASH);
    lemma_entry_components(names);
    lemma_stretches_of_slashed(all);
    lemma_slashed_bytes(all, 0);
    assert(n.drop_last() =~= entry_bytes(names));
    assert(!entry_bytes(names).contains(0));
    assert(!n.contains(0)) by {
        if n.contains(0) {
            let k = choose|k: int| 0 <= k < n.len() && n[k] == 0;
            assert(entry_bytes(names)[k] == 0);
        }
    }
}

/// A refused name is told to be too long exactly where it is; anything else that is wrong with it
/// is no matter of a limit.
pub proof fn law_long_names_are_told_apart(name: Seq<char>, directory: bool, fault: Fault)
    requires
        entry_fault(name, directory, fault),
    ensures
        fault.admission() is Some <==> encode_utf8(name).len() > 65535,
{
    reveal_with_fuel(Fault::admission, 3);
}

} // verus!
