//! Text as bytes: the small pieces from which names, header values and bodies are built.
use vstd::prelude::*;
use vstd::string::*;
use vstd::utf8::*;

verus! {

/// The decimal digits of a number, most significant first, without a leading zero.
pub open spec fn decimal(n: nat) -> Seq<u8>
    decreases n,
{
    if n < 10 {
        seq![(48 + n) as u8]
    } else {
        decimal(n / 10).push((48 + n % 10) as u8)
    }
}

pub fn decimal_digits(n: u64) -> (digits: Vec<u8>)
    ensures
        digits@ == decimal(n as nat),
    decreases n,
{
    if n < 10 {
        let mut digits: Vec<u8> = Vec::new();
        digits.push(48 + n as u8);
        digits
    } else {
        let mut digits = decimal_digits(n / 10);
        digits.push(48 + (n % 10) as u8);
        digits
    }
}

pub proof fn lemma_decimal_digits(n: nat)
    ensures
        1 <= decimal(n).len(),
        forall|i: int| 0 <= i < decimal(n).len() ==> 48 <= #[trigger] decimal(n)[i] <= 57,
    decreases n,
{
    if n >= 10 {
        lemma_decimal_digits(n / 10);
    }
}

/// Bytes below 128 are text, one character each.
pub proof fn lemma_ascii_is_text(bytes: Seq<u8>)
    requires
        forall|i: int| 0 <= i < bytes.len() ==> #[trigger] bytes[i] < 128,
    ensures
        valid_utf8(bytes),
    decreases bytes.len(),
{
    if bytes.len() > 0 {
        let b = bytes[0];
        assert(is_leading_byte_width_1(b) && codepoint_width_1(b) < 128) by (bit_vector)
            requires
                b < 128,
        ;
        let rest = pop_first_scalar(bytes);
        assert forall|i: int| 0 <= i < rest.len() implies #[trigger] rest[i] < 128 by {
            assert(rest[i] == bytes[i + 1]);
        }
        lemma_ascii_is_text(rest);
    }
}

/// `String::from_utf8`: on bytes that are valid UTF-8 it succeeds, and the string holds
/// exactly those bytes.
#[verifier::external_body]
pub(crate) fn string_from_utf8(bytes: Vec<u8>) -> (text: String)
    requires
        valid_utf8(bytes@),
    ensures
        encode_utf8(text@) == bytes@,
{
    String::from_utf8(bytes).expect("the bytes are valid UTF-8")
}

/// Appends the bytes of a text.
pub fn push_text(out: &mut Vec<u8>, text: &str)
    ensures
        final(out)@ == old(out)@ + encode_utf8(text@),
{
    push_bytes(out, text.as_bytes());
}

pub fn push_bytes(out: &mut Vec<u8>, bytes: &[u8])
    ensures
        final(out)@ == old(out)@ + bytes@,
{
    let mut i: usize = 0;
    while i < bytes.len()
        invariant
            i <= bytes.len(),
            out@ == old(out)@ + bytes@.subrange(0, i as int),
        decreases bytes.len() - i,
    {
        out.push(bytes[i]);
        i = i + 1;
    }
    assert(bytes@.subrange(0, bytes@.len() as int) =~= bytes@);
}

/// Whether two byte strings are the same.
pub fn same_bytes(a: &[u8], b: &[u8]) -> (same: bool)
    ensures
        same == (a@ == b@),
{
    if a.len() != b.len() {
        return false;
    }
    let mut i: usize = 0;
    while i < a.len()
        invariant
            i <= a.len(),
            a@.len() == b@.len(),
            forall|j: int| 0 <= j < i ==> a@[j] == b@[j],
        decreases a.len() - i,
    {
        if a[i] != b[i] {
            assert(a@[i as int] != b@[i as int]);
            return false;
        }
        i = i + 1;
    }
    assert(a@ =~= b@);
    true
}

/// Whether two texts are the same.
pub fn same_text(a: &str, b: &str) -> (same: bool)
    ensures
        same == (a@ == b@),
{
    let same = same_bytes(a.as_bytes(), b.as_bytes());
    proof {
        if encode_utf8(a@) == encode_utf8(b@) {
            encode_utf8_decode_utf8(a@);
            encode_utf8_decode_utf8(b@);
        }
    }
    same
}


/// Encoding keeps concatenation.
pub proof fn lemma_encode_concat(a: Seq<char>, b: Seq<char>)
    ensures
        encode_utf8(a + b) == encode_utf8(a) + encode_utf8(b),
    decreases a.len(),
{
    if a.len() == 0 {
        assert(a + b =~= b);
        assert(encode_utf8(a) + encode_utf8(b) =~= encode_utf8(b));
    } else {
        assert((a + b).drop_first() =~= a.drop_first() + b);
        lemma_encode_concat(a.drop_first(), b);
        assert(encode_utf8(a + b) =~= encode_utf8(a) + encode_utf8(b));
    }
}

/// A text in the making, held as its bytes.
pub struct TextBuilder {
    bytes: Vec<u8>,
    chars: Ghost<Seq<char>>,
}

impl TextBuilder {
    /// The bytes are the encoding of the characters.
    pub closed spec fn wf(self) -> bool {
        self.bytes@ == encode_utf8(self.chars@)
    }

    /// The characters so far.
    pub closed spec fn view(self) -> Seq<char> {
        self.chars@
    }

    pub fn new() -> (builder: TextBuilder)
        ensures
            builder.wf(),
            builder.view() == Seq::<char>::empty(),
    {
        let builder = TextBuilder { bytes: Vec::new(), chars: Ghost(Seq::empty()) };
        assert(builder.bytes@ =~= encode_utf8(Seq::<char>::empty()));
        builder
    }

    pub fn push(&mut self, text: &str)
        requires
            old(self).wf(),
        ensures
            final(self).wf(),
            final(self).view() == old(self).view() + text@,
    {
        proof {
            lemma_encode_concat(self.chars@, text@);
        }
        push_text(&mut self.bytes, text);
        self.chars = Ghost(self.chars@ + text@);
    }

    pub fn finish(self) -> (text: String)
        requires
            self.wf(),
        ensures
            text@ == self.view(),
    {
        proof {
            encode_utf8_valid_utf8(self.chars@);
            encode_utf8_decode_utf8(self.chars@);
        }
        let text = string_from_utf8(self.bytes);
        proof {
            encode_utf8_decode_utf8(text@);
        }
        text
    }
}


/// The number of bytes of the scalar that starts at an index, or zero where none starts there.
pub fn scalar_width(bytes: &[u8], at: usize) -> (width: usize)
    requires
        at < bytes@.len(),
    ensures
        width > 0 <==> valid_first_scalar(bytes@.skip(at as int)),
        width > 0 ==> width == length_of_first_scalar(bytes@.skip(at as int)),
        width <= bytes@.len() - at,
        width > 1 ==> bytes@[at as int] >= 128,
        width == 1 ==> bytes@[at as int] < 128,
{
    let rest: usize = bytes.len() - at;
    let ghost tail = bytes@.skip(at as int);
    let b1: u8 = bytes[at];
    assert(tail[0] == b1);
    if b1 <= 0x7f {
        assert(codepoint_width_1(b1) < 128) by (bit_vector)
            requires
                b1 <= 0x7f,
        ;
        return 1;
    }
    if 0xc0 <= b1 && b1 <= 0xdf {
        if rest < 2 {
            return 0;
        }
        let b2: u8 = bytes[at + 1];
        assert(tail[1] == b2);
        if !(0x80 <= b2 && b2 <= 0xbf) {
            return 0;
        }
        let code: u32 = (((b1 & 0x1f) as u32) << 6) | ((b2 & 0x3f) as u32);
        assert(code < 0x800) by (bit_vector)
            requires
                code == (((b1 & 0x1f) as u32) << 6) | ((b2 & 0x3f) as u32),
        ;
        if code < 0x80 {
            return 0;
        }
        return 2;
    }
    if 0xe0 <= b1 && b1 <= 0xef {
        if rest < 3 {
            return 0;
        }
        let b2: u8 = bytes[at + 1];
        let b3: u8 = bytes[at + 2];
        assert(tail[1] == b2 && tail[2] == b3);
        if !(0x80 <= b2 && b2 <= 0xbf && 0x80 <= b3 && b3 <= 0xbf) {
            return 0;
        }
        let code: u32 = (((b1 & 0x0f) as u32) << 12) | (((b2 & 0x3f) as u32) << 6) | ((b3
            & 0x3f) as u32);
        if code < 0x800 || (0xd800 <= code && code <= 0xdfff) {
            return 0;
        }
        return 3;
    }
    if 0xf0 <= b1 && b1 <= 0xf7 {
        if rest < 4 {
            return 0;
        }
        let b2: u8 = bytes[at + 1];
        let b3: u8 = bytes[at + 2];
        let b4: u8 = bytes[at + 3];
        assert(tail[1] == b2 && tail[2] == b3 && tail[3] == b4);
        if !(0x80 <= b2 && b2 <= 0xbf && 0x80 <= b3 && b3 <= 0xbf && 0x80 <= b4 && b4 <= 0xbf) {
            return 0;
        }
        let code: u32 = (((b1 & 0x07) as u32) << 18) | (((b2 & 0x3f) as u32) << 12) | (((b3
            & 0x3f) as u32) << 6) | ((b4 & 0x3f) as u32);
        if code < 0x10000 || code > 0x10ffff {
            return 0;
        }
        return 4;
    }
    0
}

/// Whether the bytes are text.
pub fn is_text(bytes: &[u8]) -> (text: bool)
    ensures
        text == valid_utf8(bytes@),
{
    let mut at: usize = 0;
    assert(bytes@.skip(0) =~= bytes@);
    while at < bytes.len()
        invariant
            at <= bytes@.len(),
            valid_utf8(bytes@) == valid_utf8(bytes@.skip(at as int)),
        decreases bytes.len() - at,
    {
        let width: usize = scalar_width(bytes, at);
        if width == 0 {
            return false;
        }
        proof {
            assert(pop_first_scalar(bytes@.skip(at as int)) =~= bytes@.skip(at + width));
        }
        at = at + width;
    }
    true
}


/// The characters of a text.
pub fn chars_of(text: &str) -> (chars: Vec<char>)
    ensures
        chars@ == text@,
{
    let mut chars: Vec<char> = Vec::new();
    for c in it: text.chars()
        invariant
            chars@ == it.seq().take(it.index() as int),
            it.seq() == text@,
    {
        chars.push(c);
        assert(chars@ =~= it.seq().take(it.index() + 1));
    }
    assert(chars@ =~= text@);
    chars
}


/// One character of the text of a random identifier.
pub open spec fn uuid_char(text: Seq<char>, i: int) -> bool {
    if i == 8 || i == 13 || i == 18 || i == 23 {
        text[i] == '-'
    } else {
        '0' <= text[i] <= '9' || 'a' <= text[i] <= 'f'
    }
}

/// The text of a random identifier: 32 lower-case hexadecimal digits in five groups, with the
/// version at the head of the third group and the variant at the head of the fourth.
pub open spec fn uuid_text(text: Seq<char>) -> bool {
    &&& text.len() == 36
    &&& text[14] == '4'
    &&& (text[19] == '8' || text[19] == '9' || text[19] == 'a' || text[19] == 'b')
    &&& forall|i: int| 0 <= i < 36 ==> #[trigger] uuid_char(text, i)
}

/// `uuid::Uuid::new_v4` and its `to_string`: a random identifier of version 4 in its
/// hyphenated lower-case form. Which one it is depends on chance.
#[verifier::external_body]
pub(crate) fn random_uuid() -> (text: String)
    ensures
        uuid_text(text@),
{
    uuid::Uuid::new_v4().to_string()
}


/// `String::push`: appends one character.
pub assume_specification[ String::push ](text: &mut String, c: char)
    ensures
        final(text)@ == old(text)@.push(c),
;

/// What `String::from_utf8_lossy` makes of bytes: their text, where they are text, and otherwise
/// a text with replacement characters for what is not.
pub uninterp spec fn lossy_text(bytes: Seq<u8>) -> Seq<char>;

/// `String::from_utf8_lossy`, turned into an owned text. Bytes that are text are kept; what
/// becomes of others is a function of the bytes alone.
#[verifier::external_body]
pub(crate) fn lossy(bytes: &[u8]) -> (text: String)
    ensures
        text@ == lossy_text(bytes@),
        valid_utf8(bytes@) ==> encode_utf8(text@) == bytes@,
{
    String::from_utf8_lossy(bytes).into_owned()
}

/// The number of bytes of a character.
pub open spec fn char_width(c: char) -> nat {
    if c as u32 <= 0x7f {
        1
    } else if c as u32 <= 0x7ff {
        2
    } else if c as u32 <= 0xffff {
        3
    } else {
        4
    }
}

pub proof fn lemma_char_width(c: char)
    ensures
        encode_utf8(seq![c]) == encode_scalar(c as u32),
        encode_utf8(seq![c]).len() == char_width(c),
{
    char_is_scalar(c);
    let text = seq![c];
    assert(text.drop_first() =~= Seq::<char>::empty());
    assert(encode_utf8(text.drop_first()) =~= Seq::<u8>::empty());
    assert(encode_utf8(text) =~= encode_scalar(c as u32));
}

pub fn width_of(c: char) -> (bytes: usize)
    ensures
        bytes == char_width(c),
        1 <= bytes <= 4,
{
    if c as u32 <= 0x7f {
        1
    } else if c as u32 <= 0x7ff {
        2
    } else if c as u32 <= 0xffff {
        3
    } else {
        4
    }
}

/// An ASCII character is its byte.
pub proof fn lemma_ascii_char(b: u8)
    requires
        b < 128,
    ensures
        encode_utf8(seq![b as char]) == seq![b],
{
    lemma_char_width(b as char);
    assert((b as u32 & 0x7f) as u8 == b) by (bit_vector)
        requires
            b < 128,
    ;
    assert(encode_scalar((b as char) as u32) =~= seq![b]);
}

/// The byte of a character, if it is an ASCII character.
pub fn ascii_byte(c: char) -> (byte: Option<u8>)
    ensures
        match byte {
            Some(b) => b < 128 && b as char == c && char_width(c) == 1,
            None => char_width(c) > 1,
        },
{
    let code: u32 = c as u32;
    if code <= 0x7f {
        Some(code as u8)
    } else {
        None
    }
}

/// Appends an ASCII character, given by its byte.
pub fn push_ascii(text: &mut String, byte: u8)
    requires
        byte < 128,
    ensures
        encode_utf8(final(text)@) == encode_utf8(old(text)@).push(byte),
{
    let ghost before = text@;
    text.push(byte as char);
    proof {
        lemma_ascii_char(byte);
        assert(text@ =~= before + seq![byte as char]);
        lemma_encode_concat(before, seq![byte as char]);
        assert(encode_utf8(text@) =~= encode_utf8(before).push(byte));
    }
}

/// What `Debug` writes for a text: the text between quotation marks, with what cannot be shown
/// escaped.
pub uninterp spec fn quoted_text(text: Seq<char>) -> Seq<char>;

/// The `Debug` form of a `str`: a function of the text alone.
#[verifier::external_body]
pub(crate) fn quote(text: &str) -> (quoted: String)
    ensures
        quoted@ == quoted_text(text@),
{
    format!("{text:?}")
}

/// Two texts, one after the other.
pub fn text2(a: &str, b: &str) -> (text: String)
    ensures
        text@ == a@ + b@,
{
    let mut builder = TextBuilder::new();
    builder.push(a);
    builder.push(b);
    assert(builder.view() =~= a@ + b@);
    builder.finish()
}

/// Three texts, one after the other.
pub fn text3(a: &str, b: &str, c: &str) -> (text: String)
    ensures
        text@ == a@ + b@ + c@,
{
    let mut builder = TextBuilder::new();
    builder.push(a);
    builder.push(b);
    builder.push(c);
    assert(builder.view() =~= a@ + b@ + c@);
    builder.finish()
}

/// The character of a digit.
pub open spec fn digit_char(n: nat) -> char {
    (48 + n) as char
}

/// The decimal digits of a number as characters.
pub open spec fn digits(n: nat) -> Seq<char>
    decreases n,
{
    if n < 10 {
        seq![digit_char(n)]
    } else {
        digits(n / 10).push(digit_char(n % 10))
    }
}

/// A signed number in decimal.
pub open spec fn signed_digits(n: int) -> Seq<char> {
    if n < 0 {
        "-"@ + digits((-n) as nat)
    } else {
        digits(n as nat)
    }
}

/// A number below 4096 as four octal digits.
pub open spec fn octal_digits(n: nat) -> Seq<char> {
    seq![
        digit_char(n / 512 % 8),
        digit_char(n / 64 % 8),
        digit_char(n / 8 % 8),
        digit_char(n % 8),
    ]
}

fn digit(n: u64) -> (c: char)
    requires
        n < 10,
    ensures
        c == digit_char(n as nat),
{
    (48 + n as u8) as char
}

pub fn number_text(n: u64) -> (text: String)
    ensures
        text@ == digits(n as nat),
    decreases n,
{
    if n < 10 {
        let mut text = String::new();
        text.push(digit(n));
        assert(text@ =~= seq![digit_char(n as nat)]);
        text
    } else {
        let mut text = number_text(n / 10);
        text.push(digit(n % 10));
        text
    }
}

pub fn signed_text(n: i64) -> (text: String)
    ensures
        text@ == signed_digits(n as int),
{
    if n < 0 {
        let size: u64 = if n == i64::MIN {
            9223372036854775808
        } else {
            (-n) as u64
        };
        let rest = number_text(size);
        text2("-", rest.as_str())
    } else {
        number_text(n as u64)
    }
}

pub fn octal_text(n: u32) -> (text: String)
    ensures
        text@ == octal_digits(n as nat),
{
    let mut text = String::new();
    text.push(digit((n / 512 % 8) as u64));
    text.push(digit((n / 64 % 8) as u64));
    text.push(digit((n / 8 % 8) as u64));
    text.push(digit((n % 8) as u64));
    assert(text@ =~= octal_digits(n as nat));
    text
}

pub fn copy_bytes(bytes: &[u8]) -> (copy: Vec<u8>)
    ensures
        copy@ == bytes@,
{
    let mut copy: Vec<u8> = Vec::new();
    push_bytes(&mut copy, bytes);
    assert(copy@ =~= bytes@);
    copy
}

} // verus!
