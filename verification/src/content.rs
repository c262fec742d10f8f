//! What a response says about the bytes it carries: validators, ranges, types and bodies.
use crate::error::AnyError;
use crate::fault::said;
use crate::filesystem::entry::Metadata;
use crate::response::{
    field_value, lemma_field_keys_differ, lemma_printable_is_field_value, printable, value_byte,
    with_field, Body, CachePolicy, Field, Response, StatusCode,
};
use crate::text::{
    chars_of, decimal, decimal_digits, lemma_decimal_digits, lemma_encode_concat, push_bytes,
    push_text, random_uuid, same_text, uuid_char, uuid_text, TextBuilder,
};
use vstd::prelude::*;
use vstd::utf8::*;

verus! {

// ---------------------------------------------------------------------------------------------
// Embedded assets
// ---------------------------------------------------------------------------------------------

/// The files of the user interface that are built into the server.
#[derive(Clone, Copy, Debug, PartialEq, Eq, Structural)]
pub enum EmbeddedAsset {
    IndexJs,
    ApiJs,
    AppUtilsJs,
    FileOperationsJs,
    IconsJs,
    PageInitJs,
    UiStateJs,
    UploadSchedulerJs,
    ViewerJs,
    IndexCss,
    FaviconIco,
}

impl EmbeddedAsset {
    /// The name under which the asset is requested.
    pub open spec fn file(self) -> Seq<char> {
        match self {
            EmbeddedAsset::IndexJs => "index.js"@,
            EmbeddedAsset::ApiJs => "api.js"@,
            EmbeddedAsset::AppUtilsJs => "app-utils.js"@,
            EmbeddedAsset::FileOperationsJs => "file-operations.js"@,
            EmbeddedAsset::IconsJs => "icons.js"@,
            EmbeddedAsset::PageInitJs => "page-init.js"@,
            EmbeddedAsset::UiStateJs => "ui-state.js"@,
            EmbeddedAsset::UploadSchedulerJs => "upload-scheduler.js"@,
            EmbeddedAsset::ViewerJs => "viewer.js"@,
            EmbeddedAsset::IndexCss => "index.css"@,
            EmbeddedAsset::FaviconIco => "favicon.ico"@,
        }
    }

    /// The type of the asset.
    pub open spec fn mime(self) -> Seq<char> {
        match self {
            EmbeddedAsset::IndexCss => "text/css; charset=UTF-8"@,
            EmbeddedAsset::FaviconIco => "image/x-icon"@,
            _ => "application/javascript; charset=UTF-8"@,
        }
    }
}

/// The asset with this name and its type.
pub fn embedded_asset(name: &str) -> (asset: Option<(EmbeddedAsset, &'static str)>)
    ensures
        match asset {
            Some((found, mime)) => found.file() == name@ && mime@ == found.mime(),
            None => forall|a: EmbeddedAsset| #[trigger] a.file() != name@,
        },
{
    let javascript: &'static str = "application/javascript; charset=UTF-8";
    if same_text(name, "index.js") {
        Some((EmbeddedAsset::IndexJs, javascript))
    } else if same_text(name, "api.js") {
        Some((EmbeddedAsset::ApiJs, javascript))
    } else if same_text(name, "app-utils.js") {
        Some((EmbeddedAsset::AppUtilsJs, javascript))
    } else if same_text(name, "file-operations.js") {
        Some((EmbeddedAsset::FileOperationsJs, javascript))
    } else if same_text(name, "icons.js") {
        Some((EmbeddedAsset::IconsJs, javascript))
    } else if same_text(name, "page-init.js") {
        Some((EmbeddedAsset::PageInitJs, javascript))
    } else if same_text(name, "ui-state.js") {
        Some((EmbeddedAsset::UiStateJs, javascript))
    } else if same_text(name, "upload-scheduler.js") {
        Some((EmbeddedAsset::UploadSchedulerJs, javascript))
    } else if same_text(name, "viewer.js") {
        Some((EmbeddedAsset::ViewerJs, javascript))
    } else if same_text(name, "index.css") {
        Some((EmbeddedAsset::IndexCss, "text/css; charset=UTF-8"))
    } else if same_text(name, "favicon.ico") {
        Some((EmbeddedAsset::FaviconIco, "image/x-icon"))
    } else {
        None
    }
}

// ---------------------------------------------------------------------------------------------
// Validators of generated representations
// ---------------------------------------------------------------------------------------------

/// The SHA-256 digest of a byte string.
pub uninterp spec fn sha256(bytes: Seq<u8>) -> Seq<u8>;

/// `sha2::Sha256::digest`, which is a function of the bytes and has 32 bytes.
#[verifier::external_body]
fn sha256_digest(bytes: &[u8]) -> (digest: Vec<u8>)
    ensures
        digest@ == sha256(bytes@),
        digest@.len() == 32,
{
    <sha2::Sha256 as sha2::Digest>::digest(bytes).to_vec()
}

pub open spec fn lower_hex_digit(n: u8) -> char {
    if n < 10 {
        ('0' as u8 + n) as char
    } else {
        ('a' as u8 + (n - 10)) as char
    }
}

/// Bytes as pairs of lower-case hexadecimal digits.
pub open spec fn lower_hex(bytes: Seq<u8>) -> Seq<char> {
    Seq::new(
        2 * bytes.len(),
        |i: int|
            lower_hex_digit(
                if i % 2 == 0 {
                    bytes[i / 2] / 16
                } else {
                    bytes[i / 2] % 16
                },
            ),
    )
}

/// `hex::encode`, which writes each byte as two lower-case hexadecimal digits.
#[verifier::external_body]
fn hex_encode(bytes: &[u8]) -> (text: String)
    ensures
        text@ == lower_hex(bytes@),
{
    hex::encode(bytes)
}

/// The strong validator for a representation with this digest.
pub open spec fn etag_text(digest: Seq<u8>) -> Seq<char> {
    "\"sha256:"@ + lower_hex(digest) + "\""@
}

proof fn lemma_etag_is_printable(digest: Seq<u8>)
    ensures
        printable(etag_text(digest)),
{
    reveal_strlit("\"sha256:");
    reveal_strlit("\"");
    let hex = lower_hex(digest);
    assert forall|i: int| 0 <= i < hex.len() implies ' ' <= #[trigger] hex[i] <= '~' by {
        let n: u8 = if i % 2 == 0 {
            digest[i / 2] / 16
        } else {
            digest[i / 2] % 16
        };
        assert(n < 16);
        assert(hex[i] == lower_hex_digit(n));
    }
    assert forall|i: int| 0 <= i < etag_text(digest).len() implies ' ' <= #[trigger] etag_text(
        digest,
    )[i] <= '~' by {
        let head = "\"sha256:"@;
        if i < head.len() {
            assert(etag_text(digest)[i] == head[i]);
        } else if i < head.len() + hex.len() {
            assert(etag_text(digest)[i] == hex[i - head.len()]);
        } else {
            assert(etag_text(digest)[i] == "\""@[i - head.len() - hex.len()]);
        }
    }
}

/// The validator for a digest.
pub fn etag_of_digest(digest: &[u8]) -> (etag: String)
    ensures
        etag@ == etag_text(digest@),
        printable(etag@),
{
    let mut text = TextBuilder::new();
    text.push("\"sha256:");
    let digits = hex_encode(digest);
    text.push(digits.as_str());
    text.push("\"");
    proof {
        assert(text.view() =~= etag_text(digest@));
        lemma_etag_is_printable(digest@);
    }
    text.finish()
}

/// The validator of a generated representation, as bytes of a header value.
pub open spec fn generated_etag_value(output: Seq<u8>) -> Seq<u8> {
    encode_utf8(etag_text(sha256(output)))
}

/// The validator of a generated representation.
pub fn generated_etag(output: &[u8]) -> (etag: String)
    ensures
        etag@ == etag_text(sha256(output@)),
        printable(etag@),
{
    let digest = sha256_digest(output);
    etag_of_digest(digest.as_slice())
}

/// What the conditions of a request say about reading the selected representation.
#[derive(Clone, Copy, Debug, PartialEq, Eq, Structural)]
pub enum ReadPreconditionOutcome {
    Proceed,
    NotModified,
    PreconditionFailed,
}

/// The response after the conditions were applied to it.
pub open spec fn read_outcome_applied(
    before: Response,
    after: Response,
    outcome: ReadPreconditionOutcome,
) -> bool {
    &&& after.wf()
    &&& after.body == before.body
    &&& match outcome {
        ReadPreconditionOutcome::Proceed => after.status == before.status && after.fields()
            == before.fields(),
        ReadPreconditionOutcome::NotModified => after.status == StatusCode::NotModified
            && after.fields() == before.fields(),
        ReadPreconditionOutcome::PreconditionFailed => after.status
            == StatusCode::PreconditionFailed && after.fields() == with_field(
            before.fields(),
            Field::ContentLength,
            decimal(0),
        ),
    }
}

/// Applies the conditions and says whether the representation may be sent. A refusal has no
/// representation, so it announces that it is empty.
pub fn apply_read_precondition_outcome(
    outcome: ReadPreconditionOutcome,
    response: &mut Response,
) -> (proceed: bool)
    requires
        old(response).wf(),
    ensures
        read_outcome_applied(*old(response), *final(response), outcome),
        proceed == (outcome is Proceed),
{
    match outcome {
        ReadPreconditionOutcome::Proceed => true,
        ReadPreconditionOutcome::NotModified => {
            response.status = StatusCode::NotModified;
            false
        },
        ReadPreconditionOutcome::PreconditionFailed => {
            response.status = StatusCode::PreconditionFailed;
            response.set_number(Field::ContentLength, 0);
            false
        },
    }
}

/// The response after the validator of a generated representation was set and the conditions
/// were applied.
pub open spec fn generated_applied(
    before: Response,
    after: Response,
    output: Seq<u8>,
    outcome: ReadPreconditionOutcome,
) -> bool {
    let tagged = with_field(before.fields(), Field::Etag, generated_etag_value(output));
    &&& after.wf()
    &&& after.body == before.body
    &&& match outcome {
        ReadPreconditionOutcome::Proceed => after.status == before.status && after.fields()
            == tagged,
        ReadPreconditionOutcome::NotModified => after.status == StatusCode::NotModified
            && after.fields() == tagged,
        ReadPreconditionOutcome::PreconditionFailed => after.status
            == StatusCode::PreconditionFailed && after.fields() == with_field(
            tagged,
            Field::ContentLength,
            decimal(0),
        ),
    }
}

/// Attaches the validator of a fully generated representation and applies the conditions,
/// which were evaluated against that validator. Says whether the representation may be sent.
pub fn apply_generated_preconditions(
    output: &[u8],
    outcome: ReadPreconditionOutcome,
    response: &mut Response,
) -> (proceed: bool)
    requires
        old(response).wf(),
    ensures
        generated_applied(*old(response), *final(response), output@, outcome),
        proceed == (outcome is Proceed),
{
    let etag = generated_etag(output);
    response.set_text(Field::Etag, etag.as_str());
    apply_read_precondition_outcome(outcome, response)
}

// ---------------------------------------------------------------------------------------------
// Internal endpoints
// ---------------------------------------------------------------------------------------------

pub const HEALTH_CHECK_PATH: &'static str = "__ram__/health";

/// Where an internal request leads.
#[derive(Debug)]
pub enum InternalRoute {
    Asset { name: String },
    Health,
    NotInternal,
}

/// Whether a text starts with another one.
pub open spec fn starts_with(text: Seq<char>, prefix: Seq<char>) -> bool {
    prefix.len() <= text.len() && text.take(prefix.len() as int) == prefix
}

/// A text without its beginning.
pub open spec fn prefix_stripped(
    text: Seq<char>,
    prefix: Seq<char>,
    rest: Option<String>,
) -> bool {
    &&& match rest {
        Some(found) => starts_with(text, prefix) && found@ == text.skip(
            prefix.len() as int,
        ),
        None => !starts_with(text, prefix),
    }
}

/// The text behind a prefix.
pub fn strip_text_prefix(text: &str, prefix: &str) -> (rest: Option<String>)
    ensures
        prefix_stripped(text@, prefix@, rest),
{
    let all = chars_of(text);
    let front = chars_of(prefix);
    if front.len() > all.len() {
        return None;
    }
    let mut i: usize = 0;
    while i < front.len()
        invariant
            i <= front@.len() <= all@.len(),
            all@ == text@,
            front@ == prefix@,
            forall|j: int| 0 <= j < i ==> all@[j] == front@[j],
        decreases front.len() - i,
    {
        if all[i] != front[i] {
            assert(text@.take(prefix@.len() as int)[i as int] != prefix@[i as int]);
            return None;
        }
        i = i + 1;
    }
    assert(text@.take(prefix@.len() as int) =~= prefix@);
    proof {
        assert(text@ =~= prefix@ + text@.skip(prefix@.len() as int));
        lemma_encode_concat(prefix@, text@.skip(prefix@.len() as int));
    }
    let bytes = text.as_bytes();
    let from: usize = prefix.as_bytes().len();
    let mut tail: Vec<u8> = Vec::new();
    push_bytes(&mut tail, vstd::slice::slice_subrange(bytes, from, bytes.len()));
    proof {
        assert(tail@ =~= encode_utf8(text@.skip(prefix@.len() as int)));
        encode_utf8_valid_utf8(text@.skip(prefix@.len() as int));
        encode_utf8_decode_utf8(text@.skip(prefix@.len() as int));
    }
    let found = crate::text::string_from_utf8(tail);
    proof {
        encode_utf8_decode_utf8(found@);
    }
    Some(found)
}

/// Where a request path leads.
pub open spec fn leads(req_path: Seq<char>, asset_prefix: Seq<char>, route: InternalRoute) -> bool {
    &&& if starts_with(req_path, asset_prefix) {
        route matches InternalRoute::Asset { name } && name@ == req_path.skip(
            asset_prefix.len() as int,
        )
    } else if req_path == "__ram__/health"@ {
        route is Health
    } else {
        route is NotInternal
    }
}

/// Where a request path leads among the internal endpoints.
pub fn internal_route(req_path: &str, asset_prefix: &str) -> (route: InternalRoute)
    ensures
        leads(req_path@, asset_prefix@, route),
{
    match strip_text_prefix(req_path, asset_prefix) {
        Some(name) => InternalRoute::Asset { name },
        None => if same_text(req_path, HEALTH_CHECK_PATH) {
            InternalRoute::Health
        } else {
            InternalRoute::NotInternal
        },
    }
}

fn full_body(bytes: &[u8]) -> (body: Body)
    ensures
        body.is_bytes(bytes@),
{
    let mut held: Vec<u8> = Vec::new();
    push_bytes(&mut held, bytes);
    assert(held@ =~= bytes@);
    Body::Full { bytes: held }
}

/// The answer that carries an asset.
pub open spec fn asset_sent(
    before: Response,
    after: Response,
    asset: EmbeddedAsset,
    body: Seq<u8>,
    outcome: ReadPreconditionOutcome,
    head_only: bool,
) -> bool {
    &&& after.wf()
    &&& ({
        let described = with_field(
            with_field(
                before.fields(),
                Field::ContentLength,
                decimal(body.len()),
            ),
            Field::ContentType,
            encode_utf8(asset.mime()),
        );
        let tagged = with_field(described, Field::Etag, generated_etag_value(body));
        let settled = if outcome is PreconditionFailed {
            with_field(tagged, Field::ContentLength, decimal(0))
        } else {
            tagged
        };
        &&& after.fields() == asset_headers(settled)
        &&& after.status == match outcome {
            ReadPreconditionOutcome::Proceed => before.status,
            ReadPreconditionOutcome::NotModified => StatusCode::NotModified,
            ReadPreconditionOutcome::PreconditionFailed => StatusCode::PreconditionFailed,
        }
        &&& if outcome is Proceed && !head_only {
            after.body.is_bytes(body)
        } else {
            after.body == before.body
        }
    })
}

/// Answers with an asset.
pub fn send_asset(
    asset: EmbeddedAsset,
    body: &[u8],
    outcome: ReadPreconditionOutcome,
    head_only: bool,
    response: &mut Response,
)
    requires
        old(response).wf(),
    ensures
        asset_sent(*old(response), *final(response), asset, body@, outcome, head_only),
{
    let length: usize = body.len();
    response.set_number(Field::ContentLength, length as u64);
    proof {
        reveal_strlit("application/javascript; charset=UTF-8");
        reveal_strlit("text/css; charset=UTF-8");
        reveal_strlit("image/x-icon");
        assert(printable("application/javascript; charset=UTF-8"@));
        assert(printable("text/css; charset=UTF-8"@));
        assert(printable("image/x-icon"@));
    }
    let mime: &'static str = match asset {
        EmbeddedAsset::IndexCss => "text/css; charset=UTF-8",
        EmbeddedAsset::FaviconIco => "image/x-icon",
        _ => "application/javascript; charset=UTF-8",
    };
    response.set_text(Field::ContentType, mime);
    if apply_generated_preconditions(body, outcome, response) && !head_only {
        response.body = full_body(body);
    }
    finish_asset(response);
}

/// The fields of a versioned asset, which never changes under its name.
pub open spec fn asset_headers(before: Map<Seq<char>, Seq<Seq<u8>>>) -> Map<
    Seq<char>,
    Seq<Seq<u8>>,
> {
    with_field(
        with_field(
            before,
            Field::CacheControl,
            encode_utf8("public, max-age=31536000, immutable"@),
        ),
        Field::ContentTypeOptions,
        encode_utf8("nosniff"@),
    )
}

/// Adds what every answer about an asset carries, also the answer that there is none.
pub fn finish_asset(response: &mut Response)
    requires
        old(response).wf(),
    ensures
        final(response).wf(),
        final(response).fields() == asset_headers(old(response).fields()),
        final(response).status == old(response).status,
        final(response).body == old(response).body,
{
    proof {
        reveal_strlit("public, max-age=31536000, immutable");
        reveal_strlit("nosniff");
        assert(printable("public, max-age=31536000, immutable"@));
        assert(printable("nosniff"@));
    }
    response.set_text(Field::CacheControl, "public, max-age=31536000, immutable");
    response.set_text(Field::ContentTypeOptions, "nosniff");
}

/// What the health endpoint reports.
pub open spec fn health_text(ready: bool) -> Seq<char> {
    if ready {
        "{\"status\":\"OK\"}"@
    } else {
        "{\"status\":\"UNAVAILABLE\"}"@
    }
}

/// The answer of the health endpoint.
pub open spec fn health_sent(
    before: Response,
    after: Response,
    ready: bool,
    head_only: bool,
) -> bool {
    &&& after.wf()
    &&& after.status == (if ready {
        before.status
    } else {
        StatusCode::ServiceUnavailable
    })
    &&& after.fields() == with_field(
        with_field(
            with_field(
                before.fields(),
                Field::ContentType,
                encode_utf8("application/json"@),
            ),
            Field::CacheControl,
            CachePolicy::NoStore.value(),
        ),
        Field::ContentLength,
        decimal(encode_utf8(health_text(ready)).len()),
    )
    &&& if head_only {
        after.body == before.body
    } else {
        after.body.is_bytes(encode_utf8(health_text(ready)))
    }
}

/// Answers the health endpoint.
pub fn send_health(ready: bool, head_only: bool, response: &mut Response)
    requires
        old(response).wf(),
    ensures
        health_sent(*old(response), *final(response), ready, head_only),
{
    proof {
        reveal_strlit("application/json");
        assert(printable("application/json"@));
    }
    response.set_text(Field::ContentType, "application/json");
    response.set_cache_policy(CachePolicy::NoStore);
    let text: &'static str = if ready {
        "{\"status\":\"OK\"}"
    } else {
        response.status = StatusCode::ServiceUnavailable;
        "{\"status\":\"UNAVAILABLE\"}"
    };
    let bytes = text.as_bytes();
    let length: usize = bytes.len();
    response.set_number(Field::ContentLength, length as u64);
    if !head_only {
        response.body = full_body(bytes);
    }
}


// ---------------------------------------------------------------------------------------------
// Content types
// ---------------------------------------------------------------------------------------------

/// How many bytes of a file are looked at to find its type.
pub const SNIFF_BYTES: usize = 1024;

/// The largest file that is offered as text to view.
pub const TEXT_VIEW_MAX_SIZE: u64 = 4 * 1024 * 1024;

pub open spec fn begins(bytes: Seq<u8>, mark: Seq<u8>) -> bool {
    mark.len() <= bytes.len() && bytes.take(mark.len() as int) == mark
}

/// Whether bytes start with the mark of a Unicode encoding.
pub open spec fn has_byte_order_mark(bytes: Seq<u8>) -> bool {
    ||| begins(bytes, seq![0xef, 0xbb, 0xbf])
    ||| begins(bytes, seq![0x00, 0x00, 0xfe, 0xff])
    ||| begins(bytes, seq![0xff, 0xfe, 0x00, 0x00])
    ||| begins(bytes, seq![0xfe, 0xff])
    ||| begins(bytes, seq![0xff, 0xfe])
}

/// Whether bytes look like text: they carry the mark of a Unicode encoding, or have no zero
/// among the first of them and are not the start of two formats that have none there.
pub open spec fn looks_like_text(bytes: Seq<u8>) -> bool {
    has_byte_order_mark(bytes) || {
        &&& forall|i: int| 0 <= i < bytes.len() && i < 1024 ==> #[trigger] bytes[i] != 0
        &&& !begins(bytes, seq![37, 80, 68, 70])
        &&& !begins(bytes, seq![0x89, 80, 78, 71])
    }
}

/// `content_inspector::inspect` followed by `is_text`. It goes by byte order marks, by zero
/// bytes among the first 1024 bytes, and by the magic numbers `%PDF` and `\x89PNG`.
#[verifier::external_body]
fn inspect_is_text(bytes: &[u8]) -> (text: bool)
    ensures
        text == looks_like_text(bytes@),
{
    content_inspector::inspect(bytes).is_text()
}

/// The media type that `mime_guess::from_path` guesses first from the extension of a file
/// name.
pub uninterp spec fn guessed_mime(name: Seq<char>) -> Option<Seq<char>>;

/// `mime_guess::from_path` followed by `first`: a guess from the extension alone.
#[verifier::external_body]
fn guess_mime(name: &str) -> (mime: Option<String>)
    ensures
        mime is Some == guessed_mime(name@) is Some,
        mime matches Some(text) ==> guessed_mime(name@) == Some(text@),
{
    mime_guess::from_path(name).first().map(|mime| mime.to_string())
}

/// The name of the encoding that `chardetng` guesses for bytes, of which more may follow.
pub uninterp spec fn guessed_charset(bytes: Seq<u8>, complete: bool) -> Seq<char>;

/// `chardetng::EncodingDetector`: made anew with ISO-2022-JP allowed, fed once, and asked for
/// a guess without a domain hint and with UTF-8 allowed.
#[verifier::external_body]
fn guess_charset(bytes: &[u8], complete: bool) -> (charset: String)
    ensures
        charset@ == guessed_charset(bytes@, complete),
{
    let mut detector = chardetng::EncodingDetector::new(chardetng::Iso2022JpDetection::Allow);
    detector.feed(bytes, complete);
    detector.guess(None, chardetng::Utf8Detection::Allow).name().to_string()
}

/// The content type for a guessed media type and, if the content is text, its encoding.
pub open spec fn typed(mime: Option<Seq<char>>, charset: Option<Seq<char>>) -> Seq<char> {
    match charset {
        Some(name) => (match mime {
            Some(m) => m,
            None => "text/plain"@,
        }) + "; charset="@ + name,
        None => match mime {
            Some(m) => m,
            None => "application/octet-stream"@,
        },
    }
}

pub open spec fn chars_view(text: Option<String>) -> Option<Seq<char>> {
    match text {
        Some(t) => Some(t@),
        None => None,
    }
}

/// The content type for a guessed media type and, if the content is text, its encoding.
pub fn content_type_text(mime: Option<String>, charset: Option<String>) -> (text: String)
    ensures
        text@ == typed(chars_view(mime), chars_view(charset)),
{
    let mut text = TextBuilder::new();
    match (&mime, &charset) {
        (Some(m), _) => {
            text.push(m.as_str());
        },
        (None, Some(_)) => {
            text.push("text/plain");
        },
        (None, None) => {
            text.push("application/octet-stream");
        },
    }
    match &charset {
        Some(name) => {
            text.push("; charset=");
            text.push(name.as_str());
        },
        None => {},
    }
    assert(text.view() =~= typed(chars_view(mime), chars_view(charset)));
    text.finish()
}

/// The content type that a file's name and its first bytes suggest.
pub open spec fn sniffed(buffer: Seq<u8>, name: Seq<char>) -> Seq<char> {
    typed(
        guessed_mime(name),
        if looks_like_text(buffer) {
            Some(guessed_charset(buffer, buffer.len() < SNIFF_BYTES))
        } else {
            None
        },
    )
}

/// Finds the content type of a file from its name and its first bytes.
pub fn sniff_content_type(buffer: &[u8], name: &str) -> (content_type: String)
    ensures
        content_type@ == sniffed(buffer@, name@),
{
    let mime = guess_mime(name);
    let charset: Option<String> = if inspect_is_text(buffer) {
        Some(guess_charset(buffer, buffer.len() < SNIFF_BYTES))
    } else {
        None
    };
    content_type_text(mime, charset)
}

/// Whether a file is shown as a text.
pub open spec fn viewing_decided(
    len: u64,
    first_bytes: Seq<u8>,
    viewable: bool,
) -> bool {
    &&& viewable == (len <= TEXT_VIEW_MAX_SIZE && looks_like_text(first_bytes))
}

/// Whether a file is offered as text to view.
pub fn text_viewable(len: u64, first_bytes: &[u8]) -> (viewable: bool)
    ensures
        viewing_decided(len, first_bytes@, viewable),
{
    len <= TEXT_VIEW_MAX_SIZE && inspect_is_text(first_bytes)
}

/// Characters that Unicode counts as white space.
pub open spec fn white(c: char) -> bool {
    ||| '\u{9}' <= c <= '\u{d}'
    ||| c == ' '
    ||| c == '\u{85}'
    ||| c == '\u{a0}'
    ||| c == '\u{1680}'
    ||| '\u{2000}' <= c <= '\u{200a}'
    ||| c == '\u{2028}'
    ||| c == '\u{2029}'
    ||| c == '\u{202f}'
    ||| c == '\u{205f}'
    ||| c == '\u{3000}'
}

fn is_white(c: char) -> (w: bool)
    ensures
        w == white(c),
{
    ('\u{9}' <= c && c <= '\u{d}') || c == ' ' || c == '\u{85}' || c == '\u{a0}' || c == '\u{1680}'
        || ('\u{2000}' <= c && c <= '\u{200a}') || c == '\u{2028}' || c == '\u{2029}' || c
        == '\u{202f}' || c == '\u{205f}' || c == '\u{3000}'
}

/// The text in front of the first semicolon, from `i` on.
pub open spec fn parameter_start(text: Seq<char>, i: int) -> int
    decreases text.len() - i,
{
    if i >= text.len() || text[i] == ';' {
        i
    } else {
        parameter_start(text, i + 1)
    }
}

pub open spec fn trim_front(text: Seq<char>) -> Seq<char>
    decreases text.len(),
{
    if text.len() > 0 && white(text[0]) {
        trim_front(text.drop_first())
    } else {
        text
    }
}

pub open spec fn trim_back(text: Seq<char>) -> Seq<char>
    decreases text.len(),
{
    if text.len() > 0 && white(text.last()) {
        trim_back(text.drop_last())
    } else {
        text
    }
}

pub open spec fn lower_ascii(c: char) -> char {
    if 'A' <= c <= 'Z' {
        (c as u8 + 32) as char
    } else {
        c
    }
}

/// The media type of a content type, without parameters and in lower case.
pub open spec fn essence(content_type: Seq<char>) -> Seq<char> {
    let front = content_type.take(parameter_start(content_type, 0));
    trim_back(trim_front(front)).map_values(|c: char| lower_ascii(c))
}

/// Media types that a browser would run rather than show.
pub open spec fn active_essence(mime: Seq<char>) -> bool {
    ||| mime == "text/html"@
    ||| mime == "application/xhtml+xml"@
    ||| mime == "image/svg+xml"@
    ||| mime == "application/xml"@
    ||| mime == "text/xml"@
    ||| (mime.len() >= "+xml"@.len() && mime.skip(mime.len() - "+xml"@.len()) == "+xml"@)
}

fn same_chars(a: &Vec<char>, from: usize, b: &str) -> (same: bool)
    requires
        from <= a@.len(),
    ensures
        same == (a@.skip(from as int) == b@),
{
    let other = chars_of(b);
    let whole: usize = a.len();
    if whole - from != other.len() {
        return false;
    }
    let mut i: usize = 0;
    while i < other.len()
        invariant
            i <= other@.len(),
            other@ == b@,
            whole == a@.len(),
            from + other@.len() == whole,
            forall|j: int| 0 <= j < i ==> a@[from + j] == other@[j],
        decreases other.len() - i,
    {
        if a[from + i] != other[i] {
            assert(a@.skip(from as int)[i as int] != b@[i as int]);
            return false;
        }
        i = i + 1;
    }
    assert(a@.skip(from as int) =~= b@);
    true
}

proof fn lemma_trim_front(text: Seq<char>, i: int)
    requires
        0 <= i <= text.len(),
        forall|j: int| 0 <= j < i ==> white(#[trigger] text[j]),
        i < text.len() ==> !white(text[i]),
    ensures
        trim_front(text) == text.skip(i),
    decreases i,
{
    if i == 0 {
        assert(text.skip(0) =~= text);
    } else {
        let rest = text.drop_first();
        assert(white(text[0]));
        assert forall|j: int| 0 <= j < i - 1 implies white(#[trigger] rest[j]) by {
            assert(rest[j] == text[j + 1]);
        }
        lemma_trim_front(rest, i - 1);
        assert(rest.skip(i - 1) =~= text.skip(i));
    }
}

proof fn lemma_trim_back(text: Seq<char>, n: int)
    requires
        0 <= n <= text.len(),
        forall|j: int| n <= j < text.len() ==> white(#[trigger] text[j]),
        n > 0 ==> !white(text[n - 1]),
    ensures
        trim_back(text) == text.take(n),
    decreases text.len() - n,
{
    if n == text.len() {
        assert(text.take(n) =~= text);
    } else {
        let rest = text.drop_last();
        assert(white(text[text.len() - 1]));
        assert forall|j: int| n <= j < rest.len() implies white(#[trigger] rest[j]) by {
            assert(rest[j] == text[j]);
        }
        lemma_trim_back(rest, n);
        assert(rest.take(n) =~= text.take(n));
    }
}

/// Whether a browser would run content of this type, so that it is offered for download.
pub fn is_browser_active_content(content_type: &str) -> (active: bool)
    ensures
        active == active_essence(essence(content_type@)),
{
    let all = chars_of(content_type);
    let mut end: usize = 0;
    while end < all.len() && all[end] != ';'
        invariant
            end <= all@.len(),
            all@ == content_type@,
            parameter_start(content_type@, 0) == parameter_start(content_type@, end as int),
        decreases all.len() - end,
    {
        end = end + 1;
    }
    let ghost front = content_type@.take(end as int);
    assert(front == content_type@.take(parameter_start(content_type@, 0)));
    let mut start: usize = 0;
    while start < end && is_white(all[start])
        invariant
            start <= end <= all@.len(),
            all@ == content_type@,
            front == content_type@.take(end as int),
            forall|j: int| 0 <= j < start ==> white(#[trigger] front[j]),
        decreases end - start,
    {
        assert(front[start as int] == all@[start as int]);
        start = start + 1;
    }
    proof {
        if start < end {
            assert(front[start as int] == all@[start as int]);
        }
        lemma_trim_front(front, start as int);
    }
    let ghost middle = front.skip(start as int);
    let mut stop: usize = end;
    while stop > start && is_white(all[stop - 1])
        invariant
            start <= stop <= end <= all@.len(),
            all@ == content_type@,
            front == content_type@.take(end as int),
            middle == front.skip(start as int),
            forall|j: int| stop - start <= j < middle.len() ==> white(#[trigger] middle[j]),
        decreases stop,
    {
        assert(middle[stop - start - 1] == all@[stop - 1]);
        stop = stop - 1;
    }
    proof {
        if stop > start {
            assert(middle[stop - start - 1] == all@[stop - 1]);
        }
        lemma_trim_back(middle, stop - start);
    }
    let ghost core = middle.take(stop - start);
    let mut mime: Vec<char> = Vec::new();
    let mut i: usize = start;
    while i < stop
        invariant
            start <= i <= stop <= end <= all@.len(),
            all@ == content_type@,
            front == content_type@.take(end as int),
            middle == front.skip(start as int),
            core == middle.take(stop - start),
            mime@ == core.take(i - start).map_values(|c: char| lower_ascii(c)),
        decreases stop - i,
    {
        let c: char = all[i];
        assert(core[i - start] == c);
        let ghost before = core.take(i - start);
        let lowered: char = lower_letter(c);
        mime.push(lowered);
        assert(core.take(i + 1 - start) =~= before.push(c));
        assert(mime@ =~= core.take(i + 1 - start).map_values(|c: char| lower_ascii(c)));
        i = i + 1;
    }
    assert(core.take(stop - start) =~= core);
    assert(mime@ == essence(content_type@));
    proof {
        reveal_strlit("+xml");
        assert(mime@.skip(0) =~= mime@);
    }
    if same_chars(&mime, 0, "text/html") || same_chars(&mime, 0, "application/xhtml+xml")
        || same_chars(&mime, 0, "image/svg+xml") || same_chars(&mime, 0, "application/xml")
        || same_chars(&mime, 0, "text/xml") {
        return true;
    }
    mime.len() >= 4 && same_chars(&mime, mime.len() - 4, "+xml")
}

fn lower_letter(c: char) -> (l: char)
    ensures
        l == lower_ascii(c),
{
    if 'A' <= c && c <= 'Z' {
        (c as u8 + 32) as char
    } else {
        c
    }
}


// ---------------------------------------------------------------------------------------------
// Opened files
// ---------------------------------------------------------------------------------------------

/// What a `Range` header asks for.
#[derive(Debug)]
pub enum ByteRangeParse {
    /// The unit is not bytes, so the header is ignored.
    UnsupportedUnit,
    Invalid,
    Unsatisfiable,
    /// Inclusive ranges within the file.
    Satisfiable { ranges: Vec<(u64, u64)> },
}

/// The `Range` headers of a request.
#[derive(Debug)]
pub enum RangeRequest {
    Absent,
    /// The header stands there more than once.
    Repeated,
    Single { parsed: ByteRangeParse },
}

/// A single range, asked for alone, ends no earlier than it starts, and its length is a number of
/// bytes.
pub open spec fn measurable(ranges: Seq<(u64, u64)>) -> bool {
    ranges.len() == 1 ==> ranges[0].0 <= ranges[0].1 && ranges[0].1 - ranges[0].0 < u64::MAX
}

/// The validators of an opened file, as header values.
#[derive(Debug)]
pub struct Validators {
    pub etag: Vec<u8>,
    pub last_modified: Option<Vec<u8>>,
}

impl Validators {
    pub open spec fn wf(self) -> bool {
        &&& field_value(self.etag@)
        &&& self.last_modified matches Some(date) ==> field_value(date@)
    }
}

/// How a request for a file goes on.
#[derive(Debug)]
pub enum OpenFileStep {
    /// There is no file to send.
    NotFound,
    /// The response is complete.
    Answered,
    /// The file is sent, whole or in these ranges.
    Send { ranges: Option<Vec<(u64, u64)>> },
}

/// The fields that every answer about an opened file carries.
pub open spec fn validated_fields(
    before: Map<Seq<char>, Seq<Seq<u8>>>,
    validators: Validators,
) -> Map<Seq<char>, Seq<Seq<u8>>> {
    let cached = with_field(before, Field::CacheControl, CachePolicy::PrivateNoCache.value());
    let dated = match validators.last_modified {
        Some(date) => with_field(cached, Field::LastModified, date@),
        None => cached,
    };
    with_field(dated, Field::Etag, validators.etag@)
}

/// The value of `Content-Range` that only tells the size.
pub open spec fn unsatisfied_range(size: u64) -> Seq<u8> {
    encode_utf8("bytes */"@) + decimal(size as nat)
}

/// The value of `Content-Range` for an inclusive range.
pub open spec fn satisfied_range(start: u64, end: u64, size: u64) -> Seq<u8> {
    encode_utf8("bytes "@) + decimal(start as nat) + encode_utf8("-"@) + decimal(end as nat)
        + encode_utf8("/"@) + decimal(size as nat)
}

proof fn lemma_field_value_concat(a: Seq<u8>, b: Seq<u8>)
    requires
        field_value(a),
        field_value(b),
    ensures
        field_value(a + b),
{
    let s = a + b;
    assert forall|i: int| 0 <= i < s.len() implies value_byte(#[trigger] s[i]) by {
        if i < a.len() {
            assert(s[i] == a[i]);
        } else {
            assert(s[i] == b[i - a.len()]);
        }
    }
}

proof fn lemma_decimal_is_field_value(n: nat)
    ensures
        field_value(decimal(n)),
{
    lemma_decimal_digits(n);
}

fn unsatisfied_range_value(size: u64) -> (value: Vec<u8>)
    ensures
        value@ == unsatisfied_range(size),
        field_value(value@),
{
    let mut value: Vec<u8> = Vec::new();
    push_text(&mut value, "bytes */");
    push_bytes(&mut value, decimal_digits(size).as_slice());
    proof {
        reveal_strlit("bytes */");
        lemma_printable_is_field_value("bytes */"@);
        lemma_decimal_is_field_value(size as nat);
        lemma_field_value_concat(encode_utf8("bytes */"@), decimal(size as nat));
        assert(value@ =~= unsatisfied_range(size));
    }
    value
}

fn satisfied_range_value(start: u64, end: u64, size: u64) -> (value: Vec<u8>)
    ensures
        value@ == satisfied_range(start, end, size),
        field_value(value@),
{
    let mut value: Vec<u8> = Vec::new();
    push_text(&mut value, "bytes ");
    push_bytes(&mut value, decimal_digits(start).as_slice());
    push_text(&mut value, "-");
    push_bytes(&mut value, decimal_digits(end).as_slice());
    push_text(&mut value, "/");
    push_bytes(&mut value, decimal_digits(size).as_slice());
    proof {
        reveal_strlit("bytes ");
        reveal_strlit("-");
        reveal_strlit("/");
        lemma_printable_is_field_value("bytes "@);
        lemma_printable_is_field_value("-"@);
        lemma_printable_is_field_value("/"@);
        lemma_decimal_is_field_value(start as nat);
        lemma_decimal_is_field_value(end as nat);
        lemma_decimal_is_field_value(size as nat);
        let a = encode_utf8("bytes "@) + decimal(start as nat);
        let b = a + encode_utf8("-"@);
        let c = b + decimal(end as nat);
        let d = c + encode_utf8("/"@);
        lemma_field_value_concat(encode_utf8("bytes "@), decimal(start as nat));
        lemma_field_value_concat(a, encode_utf8("-"@));
        lemma_field_value_concat(b, decimal(end as nat));
        lemma_field_value_concat(c, encode_utf8("/"@));
        lemma_field_value_concat(d, decimal(size as nat));
        assert(value@ =~= satisfied_range(start, end, size));
    }
    value
}

/// The step of a request for a file before any byte of it is read.
pub open spec fn file_step(
    is_file: bool,
    outcome: ReadPreconditionOutcome,
    range: RangeRequest,
    if_range_matches: bool,
    head_only: bool,
) -> FileDecision {
    if !is_file {
        FileDecision::NotFound
    } else if outcome is NotModified {
        FileDecision::NotModified
    } else if outcome is PreconditionFailed {
        FileDecision::PreconditionFailed
    } else if head_only || !if_range_matches {
        // A range is a matter of `GET` alone, and only of the version the client knows.
        FileDecision::Whole
    } else {
        match range {
            RangeRequest::Absent => FileDecision::Whole,
            RangeRequest::Repeated => FileDecision::BadRange,
            RangeRequest::Single { parsed } => match parsed {
                ByteRangeParse::UnsupportedUnit => FileDecision::Whole,
                ByteRangeParse::Invalid => FileDecision::BadRange,
                ByteRangeParse::Unsatisfiable => FileDecision::Unsatisfiable,
                ByteRangeParse::Satisfiable { ranges } => FileDecision::Ranges(ranges@),
            },
        }
    }
}

/// What is decided about a request for a file.
pub enum FileDecision {
    NotFound,
    NotModified,
    PreconditionFailed,
    BadRange,
    Unsatisfiable,
    Whole,
    Ranges(Seq<(u64, u64)>),
}

/// How a request for a file goes on, and what its response says so far.
pub open spec fn file_begun(
    before: Response,
    after: Response,
    is_file: bool,
    size: u64,
    validators: Validators,
    outcome: ReadPreconditionOutcome,
    range: RangeRequest,
    if_range_matches: bool,
    head_only: bool,
    step: OpenFileStep,
) -> bool {
    &&& after.wf()
    &&& after.body == before.body
    &&& ({
        let base = validated_fields(before.fields(), validators);
        match file_step(is_file, outcome, range, if_range_matches, head_only) {
            FileDecision::NotFound => step is NotFound && after == before,
            FileDecision::NotModified => step is Answered && after.status
                == StatusCode::NotModified && after.fields() == base,
            FileDecision::PreconditionFailed => step is Answered && after.status
                == StatusCode::PreconditionFailed && after.fields() == base,
            FileDecision::BadRange => step is Answered && after.status
                == StatusCode::BadRequest && after.fields() == with_field(
                base,
                Field::ContentLength,
                decimal(0),
            ),
            FileDecision::Unsatisfiable => step is Answered && after.status
                == StatusCode::RangeNotSatisfiable && after.fields() == with_field(
                with_field(
                    with_field(base, Field::AcceptRanges, encode_utf8("bytes"@)),
                    Field::ContentRange,
                    unsatisfied_range(size),
                ),
                Field::ContentLength,
                decimal(0),
            ),
            FileDecision::Whole => step matches OpenFileStep::Send { ranges: None }
                && after.status == before.status && after.fields()
                == base,
            FileDecision::Ranges(asked) => step matches OpenFileStep::Send {
                ranges: Some(ranges),
            } && ranges@ == asked && after.status == before.status
                && after.fields() == base,
        }
    })
}

/// Decides a request for an opened file: the conditions of the request come before its range,
/// and every answer carries the validators of the file.
pub fn begin_open_file(
    is_file: bool,
    size: u64,
    validators: &Validators,
    outcome: ReadPreconditionOutcome,
    range: RangeRequest,
    if_range_matches: bool,
    head_only: bool,
    response: &mut Response,
) -> (step: OpenFileStep)
    requires
        old(response).wf(),
        validators.wf(),
    ensures
        file_begun(
            *old(response),
            *final(response),
            is_file,
            size,
            *validators,
            outcome,
            range,
            if_range_matches,
            head_only,
            step,
        ),
{
    if !is_file {
        return OpenFileStep::NotFound;
    }
    response.set_cache_policy(CachePolicy::PrivateNoCache);
    match &validators.last_modified {
        Some(date) => {
            response.set(Field::LastModified, date.as_slice());
        },
        None => {},
    }
    response.set(Field::Etag, validators.etag.as_slice());
    match outcome {
        ReadPreconditionOutcome::Proceed => {},
        ReadPreconditionOutcome::NotModified => {
            response.status = StatusCode::NotModified;
            return OpenFileStep::Answered;
        },
        ReadPreconditionOutcome::PreconditionFailed => {
            response.status = StatusCode::PreconditionFailed;
            return OpenFileStep::Answered;
        },
    }
    if head_only || !if_range_matches {
        return OpenFileStep::Send { ranges: None };
    }
    match range {
        RangeRequest::Absent => OpenFileStep::Send { ranges: None },
        RangeRequest::Repeated => {
            response.status = StatusCode::BadRequest;
            response.set_number(Field::ContentLength, 0);
            OpenFileStep::Answered
        },
        RangeRequest::Single { parsed } => match parsed {
            ByteRangeParse::UnsupportedUnit => OpenFileStep::Send { ranges: None },
            ByteRangeParse::Invalid => {
                response.status = StatusCode::BadRequest;
                response.set_number(Field::ContentLength, 0);
                OpenFileStep::Answered
            },
            ByteRangeParse::Unsatisfiable => {
                response.status = StatusCode::RangeNotSatisfiable;
                proof {
                    reveal_strlit("bytes");
                    assert(printable("bytes"@));
                }
                response.set_text(Field::AcceptRanges, "bytes");
                response.set(Field::ContentRange, unsatisfied_range_value(size).as_slice());
                response.set_number(Field::ContentLength, 0);
                OpenFileStep::Answered
            },
            ByteRangeParse::Satisfiable { ranges } => OpenFileStep::Send { ranges: Some(ranges) },
        },
    }
}

/// What a multipart answer needs to know: a boundary that separates its parts, its length, and
/// whether the ranges ask for too much.
#[derive(Debug)]
pub struct MultipartFacts {
    pub boundary: String,
    pub content_length: u64,
    pub exceeds_limits: bool,
}

/// The policy that keeps active content from running.
pub open spec fn sandbox_policy() -> Seq<u8> {
    encode_utf8("sandbox; default-src 'none'; base-uri 'none'; form-action 'none'"@)
}

/// The fields that describe the type of a file.
pub open spec fn described_fields(
    before: Map<Seq<char>, Seq<Seq<u8>>>,
    content_type: Seq<char>,
) -> Map<Seq<char>, Seq<Seq<u8>>> {
    let named = with_field(before, Field::ContentType, encode_utf8(content_type));
    let guarded = if active_essence(essence(content_type)) {
        with_field(named, Field::ContentSecurityPolicy, sandbox_policy())
    } else {
        named
    };
    with_field(guarded, Field::AcceptRanges, encode_utf8("bytes"@))
}

fn is_field_value(bytes: &[u8]) -> (legal: bool)
    ensures
        legal == field_value(bytes@),
{
    let mut i: usize = 0;
    while i < bytes.len()
        invariant
            i <= bytes@.len(),
            forall|j: int| 0 <= j < i ==> value_byte(#[trigger] bytes@[j]),
        decreases bytes.len() - i,
    {
        let b: u8 = bytes[i];
        if !(b == 9 || (b >= 32 && b != 127)) {
            assert(!value_byte(bytes@[i as int]));
            return false;
        }
        i = i + 1;
    }
    true
}

/// How a file is presented: shown in place, or offered for download.
#[derive(Clone, Copy, Debug, PartialEq, Eq, Structural)]
pub struct Presentation {
    pub inline: bool,
}

/// The answer that carries a file, and how the file is presented.
pub open spec fn file_finished(
    before: Response,
    after: Response,
    ranges: Option<Vec<(u64, u64)>>,
    size: u64,
    content_type: Seq<char>,
    force_attachment: bool,
    multipart: MultipartFacts,
    head_only: bool,
    result: Result<Presentation, AnyError>,
) -> bool {
    &&& after.wf()
    &&& result is Ok <==> field_value(encode_utf8(content_type))
    &&& result is Err ==> after == before
    &&& result matches Err(e) ==> e@ == said("failed to parse header value"@)
    &&& result matches Ok(shown) ==> {
        let base = described_fields(before.fields(), content_type);
        &&& shown.inline == (!force_attachment && !active_essence(essence(content_type)))
        &&& match ranges {
            None => {
                &&& after.status == before.status
                &&& after.fields() == with_field(
                    base,
                    Field::ContentLength,
                    decimal(size as nat),
                )
                &&& after.body == if head_only {
                    before.body
                } else {
                    Body::FileRange { start: 0, length: size }
                }
            },
            Some(asked) => if asked@.len() == 1 {
                let (start, end) = asked@[0];
                &&& after.status == StatusCode::PartialContent
                &&& after.fields() == with_field(
                    with_field(base, Field::ContentRange, satisfied_range(start, end, size)),
                    Field::ContentLength,
                    decimal((end - start + 1) as nat),
                )
                &&& after.body == if head_only {
                    before.body
                } else {
                    Body::FileRange { start, length: (end - start + 1) as u64 }
                }
            } else if multipart.exceeds_limits {
                &&& after.status == StatusCode::RangeNotSatisfiable
                &&& after.fields() == with_field(
                    base,
                    Field::ContentRange,
                    unsatisfied_range(size),
                )
                &&& after.body == before.body
            } else {
                &&& after.status == StatusCode::PartialContent
                &&& after.fields() == with_field(
                    with_field(
                        base,
                        Field::ContentType,
                        encode_utf8("multipart/byteranges; boundary="@ + multipart.boundary@),
                    ),
                    Field::ContentLength,
                    decimal(multipart.content_length as nat),
                )
                &&& if head_only {
                    after.body == before.body
                } else {
                    after.body matches Body::Multipart { ranges: sent, boundary }
                        && sent@ == asked@ && boundary == multipart.boundary
                }
            },
        }
    }
}

/// The answer that carries a file, whole or in ranges. Active content is never shown in place.
pub fn finish_open_file(
    ranges: Option<Vec<(u64, u64)>>,
    size: u64,
    content_type: &str,
    force_attachment: bool,
    multipart: MultipartFacts,
    head_only: bool,
    response: &mut Response,
) -> (result: Result<Presentation, AnyError>)
    requires
        old(response).wf(),
        ranges matches Some(asked) ==> measurable(asked@),
        printable(multipart.boundary@),
    ensures
        file_finished(
            *old(response),
            *final(response),
            ranges,
            size,
            content_type@,
            force_attachment,
            multipart,
            head_only,
            result,
        ),
{
    if !is_field_value(content_type.as_bytes()) {
        return Err(AnyError::message("failed to parse header value"));
    }
    response.set(Field::ContentType, content_type.as_bytes());
    let active = is_browser_active_content(content_type);
    if active {
        proof {
            reveal_strlit("sandbox; default-src 'none'; base-uri 'none'; form-action 'none'");
            assert(printable(
                "sandbox; default-src 'none'; base-uri 'none'; form-action 'none'"@,
            ));
        }
        response.set_text(
            Field::ContentSecurityPolicy,
            "sandbox; default-src 'none'; base-uri 'none'; form-action 'none'",
        );
    }
    let shown = Presentation { inline: !force_attachment && !active };
    proof {
        reveal_strlit("bytes");
        assert(printable("bytes"@));
    }
    response.set_text(Field::AcceptRanges, "bytes");
    match ranges {
        None => {
            response.set_number(Field::ContentLength, size);
            if !head_only {
                response.body = Body::FileRange { start: 0, length: size };
            }
        },
        Some(asked) => {
            if asked.len() == 1 {
                let (start, end) = asked[0];
                let length: u64 = end - start + 1;
                response.status = StatusCode::PartialContent;
                response.set(
                    Field::ContentRange,
                    satisfied_range_value(start, end, size).as_slice(),
                );
                response.set_number(Field::ContentLength, length);
                if !head_only {
                    response.body = Body::FileRange { start, length };
                }
            } else if multipart.exceeds_limits {
                response.status = StatusCode::RangeNotSatisfiable;
                response.set(Field::ContentRange, unsatisfied_range_value(size).as_slice());
            } else {
                response.status = StatusCode::PartialContent;
                let mut named = TextBuilder::new();
                named.push("multipart/byteranges; boundary=");
                named.push(multipart.boundary.as_str());
                let text = named.finish();
                proof {
                    reveal_strlit("multipart/byteranges; boundary=");
                    assert(printable("multipart/byteranges; boundary="@));
                    assert(text@ =~= "multipart/byteranges; boundary="@ + multipart.boundary@);
                    let head = "multipart/byteranges; boundary="@;
                    assert forall|i: int| 0 <= i < text@.len() implies ' ' <= #[trigger] text@[i]
                        <= '~' by {
                        if i < head.len() {
                            assert(text@[i] == head[i]);
                        } else {
                            assert(text@[i] == multipart.boundary@[i - head.len()]);
                        }
                    }
                }
                response.set_text(Field::ContentType, text.as_str());
                response.set_number(Field::ContentLength, multipart.content_length);
                if !head_only {
                    response.body = Body::Multipart {
                        ranges: asked,
                        boundary: multipart.boundary,
                    };
                }
            }
        },
    }
    Ok(shown)
}

/// Whether an opened object is sent.
pub open spec fn sending_decided(
    metadata: Metadata,
    allowed: bool,
    sendable: bool,
) -> bool {
    &&& sendable == (metadata.spec_is_file() && allowed)
}

/// Whether an opened object may be sent as a file: it is one, and the caller may read it where
/// it really lies.
pub fn handle_send_opened_cap_file(metadata: &Metadata, allowed: bool) -> (sendable: bool)
    ensures
        sending_decided(*metadata, allowed, sendable),
{
    metadata.is_file() && allowed
}

/// The answer that shows the configured error page.
pub open spec fn shows_error_page(before: Response, after: Response, shown: Presentation) -> bool {
    &&& after.wf()
    &&& after.status == StatusCode::NotFound
    &&& after.fields() == with_field(
        before.fields(),
        Field::ContentSecurityPolicy,
        encode_utf8("sandbox; default-src 'none'; style-src 'unsafe-inline'; img-src data:"@),
    )
    &&& after.body == before.body
    &&& shown.inline
}

/// Turns the response that carries the configured error page into the answer that a name is
/// missing. The page is shown in place, and kept from running anything.
pub fn finish_error_page(response: &mut Response) -> (shown: Presentation)
    requires
        old(response).wf(),
    ensures
        shows_error_page(*old(response), *final(response), shown),
{
    proof {
        reveal_strlit("sandbox; default-src 'none'; style-src 'unsafe-inline'; img-src data:");
        assert(printable(
            "sandbox; default-src 'none'; style-src 'unsafe-inline'; img-src data:"@,
        ));
    }
    response.set_text(
        Field::ContentSecurityPolicy,
        "sandbox; default-src 'none'; style-src 'unsafe-inline'; img-src data:",
    );
    response.status = StatusCode::NotFound;
    Presentation { inline: true }
}

/// A random boundary: lower-case hexadecimal digits in groups.
pub fn multipart_boundary() -> (boundary: String)
    ensures
        printable(boundary@),
        uuid_text(boundary@),
{
    let boundary = random_uuid();
    proof {
        assert forall|i: int| 0 <= i < boundary@.len() implies ' ' <= #[trigger] boundary@[i]
            <= '~' by {
            assert(uuid_char(boundary@, i));
        }
    }
    boundary
}

/// `HEAD` decides about a file as `GET` does without a range.
pub proof fn law_header_requests_ignore_ranges(
    is_file: bool,
    outcome: ReadPreconditionOutcome,
    range: RangeRequest,
    if_range_matches: bool,
)
    ensures
        file_step(is_file, outcome, range, if_range_matches, true) == file_step(
            is_file,
            outcome,
            RangeRequest::Absent,
            if_range_matches,
            false,
        ),
{
}

/// The conditions of a request are decided before its range: where one of them fails, the range
/// has no say.
pub proof fn law_conditions_come_before_ranges(
    is_file: bool,
    outcome: ReadPreconditionOutcome,
    range: RangeRequest,
    other: RangeRequest,
    if_range_matches: bool,
    head_only: bool,
)
    requires
        outcome !is Proceed,
    ensures
        file_step(is_file, outcome, range, if_range_matches, head_only) == file_step(
            is_file,
            outcome,
            other,
            if_range_matches,
            head_only,
        ),
        file_step(is_file, outcome, range, if_range_matches, head_only) !is Whole,
        file_step(is_file, outcome, range, if_range_matches, head_only) !is Ranges,
{
}

/// Content that a browser would run always carries the policy that keeps it from running.
pub proof fn law_active_content_is_sandboxed(
    before: Map<Seq<char>, Seq<Seq<u8>>>,
    content_type: Seq<char>,
)
    requires
        active_essence(essence(content_type)),
    ensures
        described_fields(before, content_type).contains_pair(
            Field::ContentSecurityPolicy.key(),
            seq![sandbox_policy()],
        ),
{
    lemma_field_keys_differ(Field::ContentSecurityPolicy, Field::AcceptRanges);
}

proof fn lemma_parameter_start(text: Seq<char>, rest: Seq<char>, i: int)
    requires
        0 <= i <= text.len(),
        !text.contains(';'),
    ensures
        parameter_start(text, i) == text.len(),
        parameter_start(text + seq![';'] + rest, i) == text.len(),
    decreases text.len() - i,
{
    let whole = text + seq![';'] + rest;
    if i < text.len() {
        assert(text.contains(text[i]));
        assert(whole[i] == text[i]);
        lemma_parameter_start(text, rest, i + 1);
    } else {
        assert(whole[i] == ';');
    }
}

/// Whether content is active does not depend on the parameters of its type.
pub proof fn law_parameters_do_not_matter(media: Seq<char>, parameters: Seq<char>)
    requires
        !media.contains(';'),
    ensures
        essence(media + seq![';'] + parameters) == essence(media),
{
    lemma_parameter_start(media, parameters, 0);
    assert((media + seq![';'] + parameters).take(media.len() as int) =~= media);
    assert(media.take(media.len() as int) =~= media);
}

// ---------------------------------------------------------------------------------------------
// What a client is answered
// ---------------------------------------------------------------------------------------------

/// A request for an opened file is answered by what it asks: nothing is found only where there is
/// no file, a condition that fails decides alone, a range is refused only for what is wrong with
/// it, and in every other case the file is sent. Whatever is answered carries the validators.
pub proof fn law_requests_for_files(
    before: Response,
    after: Response,
    is_file: bool,
    size: u64,
    validators: Validators,
    outcome: ReadPreconditionOutcome,
    range: RangeRequest,
    if_range_matches: bool,
    head_only: bool,
    step: OpenFileStep,
)
    requires
        file_begun(
            before,
            after,
            is_file,
            size,
            validators,
            outcome,
            range,
            if_range_matches,
            head_only,
            step,
        ),
    ensures
        step is NotFound <==> !is_file,
        !is_file ==> after == before,
        after.body == before.body,
        step is Answered && after.status == StatusCode::NotModified <==> is_file && outcome
            is NotModified,
        step is Answered && after.status == StatusCode::PreconditionFailed <==> is_file && outcome
            is PreconditionFailed,
        step is Answered && after.status == StatusCode::BadRequest <==> {
            &&& is_file && outcome is Proceed && !head_only && if_range_matches
            &&& range is Repeated || (range matches RangeRequest::Single { parsed } && parsed
                is Invalid)
        },
        step is Answered && after.status == StatusCode::RangeNotSatisfiable <==> {
            &&& is_file && outcome is Proceed && !head_only && if_range_matches
            &&& range matches RangeRequest::Single { parsed } && parsed is Unsatisfiable
        },
        step is Answered ==> after.status == StatusCode::NotModified || after.status
            == StatusCode::PreconditionFailed || after.status == StatusCode::BadRequest
            || after.status == StatusCode::RangeNotSatisfiable,
        step is Send <==> {
            &&& is_file && outcome is Proceed
            &&& head_only || !if_range_matches || range is Absent || (
            range matches RangeRequest::Single { parsed } && (parsed is UnsupportedUnit || parsed
                is Satisfiable))
        },
        step matches OpenFileStep::Send { ranges: Some(_) } ==> !head_only && if_range_matches,
        step is Send ==> after.status == before.status,
        is_file ==> after.has(Field::Etag, validators.etag@),
        is_file ==> after.has(Field::CacheControl, encode_utf8("no-cache, private"@)),
        is_file ==> (validators.last_modified matches Some(date) ==> after.has(
            Field::LastModified,
            date@,
        )),
{
    lemma_field_keys_differ(Field::Etag, Field::ContentLength);
    lemma_field_keys_differ(Field::Etag, Field::AcceptRanges);
    lemma_field_keys_differ(Field::Etag, Field::ContentRange);
    lemma_field_keys_differ(Field::CacheControl, Field::ContentLength);
    lemma_field_keys_differ(Field::CacheControl, Field::AcceptRanges);
    lemma_field_keys_differ(Field::CacheControl, Field::ContentRange);
    lemma_field_keys_differ(Field::CacheControl, Field::Etag);
    lemma_field_keys_differ(Field::CacheControl, Field::LastModified);
    lemma_field_keys_differ(Field::LastModified, Field::ContentLength);
    lemma_field_keys_differ(Field::LastModified, Field::AcceptRanges);
    lemma_field_keys_differ(Field::LastModified, Field::ContentRange);
    lemma_field_keys_differ(Field::LastModified, Field::Etag);
}

/// A `GET` of a regular file whose conditions pass and whose `If-Range` matches gets exactly the
/// ranges that it asks for, where they can be satisfied.
pub proof fn law_satisfiable_ranges_are_sent(
    before: Response,
    after: Response,
    size: u64,
    validators: Validators,
    asked: Vec<(u64, u64)>,
    step: OpenFileStep,
)
    requires
        file_begun(
            before,
            after,
            true,
            size,
            validators,
            ReadPreconditionOutcome::Proceed,
            RangeRequest::Single { parsed: ByteRangeParse::Satisfiable { ranges: asked } },
            true,
            false,
            step,
        ),
    ensures
        step matches OpenFileStep::Send { ranges: Some(sent) } && sent@ == asked@,
        after.status == before.status,
        after.body == before.body,
{
}

/// A refused range tells the size of the file and carries no byte of it.
pub proof fn law_refused_ranges_tell_the_size(
    before: Response,
    after: Response,
    is_file: bool,
    size: u64,
    validators: Validators,
    outcome: ReadPreconditionOutcome,
    range: RangeRequest,
    if_range_matches: bool,
    head_only: bool,
    step: OpenFileStep,
)
    requires
        file_begun(
            before,
            after,
            is_file,
            size,
            validators,
            outcome,
            range,
            if_range_matches,
            head_only,
            step,
        ),
        step is Answered,
        after.status == StatusCode::RangeNotSatisfiable || after.status == StatusCode::BadRequest,
    ensures
        after.has(Field::ContentLength, decimal(0)),
        after.status == StatusCode::RangeNotSatisfiable ==> after.has(
            Field::ContentRange,
            encode_utf8("bytes */"@) + decimal(size as nat),
        ),
        after.status == StatusCode::RangeNotSatisfiable ==> after.has(
            Field::AcceptRanges,
            encode_utf8("bytes"@),
        ),
{
    lemma_field_keys_differ(Field::ContentLength, Field::ContentRange);
    lemma_field_keys_differ(Field::ContentLength, Field::AcceptRanges);
    lemma_field_keys_differ(Field::ContentRange, Field::AcceptRanges);
}

/// A file is sent whole from its first byte to its last: the length is its size, and so is what
/// the body holds. `HEAD` is told the same without a body.
pub proof fn law_whole_files_are_sent_whole(
    before: Response,
    after: Response,
    size: u64,
    content_type: Seq<char>,
    force_attachment: bool,
    multipart: MultipartFacts,
    head_only: bool,
    result: Result<Presentation, AnyError>,
)
    requires
        file_finished(
            before,
            after,
            None,
            size,
            content_type,
            force_attachment,
            multipart,
            head_only,
            result,
        ),
        field_value(encode_utf8(content_type)),
    ensures
        result is Ok,
        after.status == before.status,
        after.has(Field::ContentLength, decimal(size as nat)),
        after.has(Field::ContentType, encode_utf8(content_type)),
        after.has(Field::AcceptRanges, encode_utf8("bytes"@)),
        !head_only ==> after.body == (Body::FileRange { start: 0, length: size }),
        head_only ==> after.body == before.body,
{
    lemma_file_fields();
}

proof fn lemma_file_fields()
    ensures
        Field::ContentLength.key() != Field::ContentType.key(),
        Field::ContentLength.key() != Field::AcceptRanges.key(),
        Field::ContentLength.key() != Field::ContentRange.key(),
        Field::ContentLength.key() != Field::ContentSecurityPolicy.key(),
        Field::ContentType.key() != Field::AcceptRanges.key(),
        Field::ContentType.key() != Field::ContentRange.key(),
        Field::ContentType.key() != Field::ContentSecurityPolicy.key(),
        Field::AcceptRanges.key() != Field::ContentRange.key(),
        Field::AcceptRanges.key() != Field::ContentSecurityPolicy.key(),
        Field::ContentRange.key() != Field::ContentSecurityPolicy.key(),
{
    lemma_field_keys_differ(Field::ContentLength, Field::ContentType);
    lemma_field_keys_differ(Field::ContentLength, Field::AcceptRanges);
    lemma_field_keys_differ(Field::ContentLength, Field::ContentRange);
    lemma_field_keys_differ(Field::ContentLength, Field::ContentSecurityPolicy);
    lemma_field_keys_differ(Field::ContentType, Field::AcceptRanges);
    lemma_field_keys_differ(Field::ContentType, Field::ContentRange);
    lemma_field_keys_differ(Field::ContentType, Field::ContentSecurityPolicy);
    lemma_field_keys_differ(Field::AcceptRanges, Field::ContentRange);
    lemma_field_keys_differ(Field::AcceptRanges, Field::ContentSecurityPolicy);
    lemma_field_keys_differ(Field::ContentRange, Field::ContentSecurityPolicy);
}

/// A request for one satisfiable range is answered with partial content: the bytes from the
/// range's start to its end, both of them included, and the header says which they are.
pub proof fn law_a_range_is_answered_with_its_bytes(
    before: Response,
    begun: Response,
    after: Response,
    size: u64,
    validators: Validators,
    asked: Vec<(u64, u64)>,
    ranges: Option<Vec<(u64, u64)>>,
    content_type: Seq<char>,
    force_attachment: bool,
    multipart: MultipartFacts,
    result: Result<Presentation, AnyError>,
)
    requires
        asked@.len() == 1,
        asked@[0].0 <= asked@[0].1 < size,
        file_begun(
            before,
            begun,
            true,
            size,
            validators,
            ReadPreconditionOutcome::Proceed,
            RangeRequest::Single { parsed: ByteRangeParse::Satisfiable { ranges: asked } },
            true,
            false,
            OpenFileStep::Send { ranges },
        ),
        file_finished(
            begun,
            after,
            ranges,
            size,
            content_type,
            force_attachment,
            multipart,
            false,
            result,
        ),
        field_value(encode_utf8(content_type)),
    ensures
        result is Ok,
        after.status == StatusCode::PartialContent,
        after.body matches Body::FileRange { start, length } && start == asked@[0].0 && start
            + length == asked@[0].1 + 1,
        after.has(
            Field::ContentRange,
            encode_utf8("bytes "@) + decimal(asked@[0].0 as nat) + encode_utf8("-"@) + decimal(
                asked@[0].1 as nat,
            ) + encode_utf8("/"@) + decimal(size as nat),
        ),
        after.has(Field::ContentLength, decimal((asked@[0].1 - asked@[0].0 + 1) as nat)),
        after.has(Field::ContentType, encode_utf8(content_type)),
        after.has(Field::AcceptRanges, encode_utf8("bytes"@)),
{
    lemma_file_fields();
}

/// Several ranges are answered with partial content that holds all of them, in the order in which
/// they were asked for, unless they ask for too much. Then the size is told and nothing is sent.
pub proof fn law_several_ranges_are_answered_together(
    before: Response,
    after: Response,
    asked: Vec<(u64, u64)>,
    size: u64,
    content_type: Seq<char>,
    force_attachment: bool,
    multipart: MultipartFacts,
    head_only: bool,
    result: Result<Presentation, AnyError>,
)
    requires
        asked@.len() != 1,
        file_finished(
            before,
            after,
            Some(asked),
            size,
            content_type,
            force_attachment,
            multipart,
            head_only,
            result,
        ),
        field_value(encode_utf8(content_type)),
    ensures
        result is Ok,
        !multipart.exceeds_limits <==> after.status == StatusCode::PartialContent,
        multipart.exceeds_limits <==> after.status == StatusCode::RangeNotSatisfiable,
        !multipart.exceeds_limits && !head_only ==> (after.body matches Body::Multipart {
            ranges: sent,
            boundary,
        } && sent@ == asked@ && boundary == multipart.boundary),
        !multipart.exceeds_limits ==> after.has(
            Field::ContentLength,
            decimal(multipart.content_length as nat),
        ),
        !multipart.exceeds_limits ==> after.has(
            Field::ContentType,
            encode_utf8("multipart/byteranges; boundary="@ + multipart.boundary@),
        ),
        multipart.exceeds_limits ==> after.has(
            Field::ContentRange,
            encode_utf8("bytes */"@) + decimal(size as nat),
        ),
        multipart.exceeds_limits || head_only ==> after.body == before.body,
{
    lemma_file_fields();
}

/// A file is shown in place unless a download was asked for or a browser would run it. How it is
/// shown does not depend on what part of it is sent, and a type that is no header value is the
/// only reason to send nothing.
pub proof fn law_files_are_shown_unless_active(
    before: Response,
    after: Response,
    ranges: Option<Vec<(u64, u64)>>,
    size: u64,
    content_type: Seq<char>,
    force_attachment: bool,
    multipart: MultipartFacts,
    head_only: bool,
    result: Result<Presentation, AnyError>,
)
    requires
        file_finished(
            before,
            after,
            ranges,
            size,
            content_type,
            force_attachment,
            multipart,
            head_only,
            result,
        ),
    ensures
        result is Err <==> !field_value(encode_utf8(content_type)),
        result is Err ==> after == before,
        result matches Ok(shown) ==> (shown.inline <==> !force_attachment && !active_essence(
            essence(content_type),
        )),
        result is Ok && active_essence(essence(content_type)) ==> after.has(
            Field::ContentSecurityPolicy,
            encode_utf8("sandbox; default-src 'none'; base-uri 'none'; form-action 'none'"@),
        ),
        result is Ok && !active_essence(essence(content_type)) ==> (after.lacks(
            Field::ContentSecurityPolicy,
        ) <==> before.lacks(Field::ContentSecurityPolicy)),
{
    lemma_file_fields();
}

/// The types that a browser would run are those of pages, of drawings with scripts and of XML in
/// every form, and no others: text, pictures, sound and archives are none of them.
pub proof fn law_active_types(mime: Seq<char>)
    ensures
        active_essence(mime) <==> {
            ||| mime == "text/html"@
            ||| mime == "text/xml"@
            ||| mime == "application/xml"@
            ||| exists|front: Seq<char>| mime == #[trigger] (front + "+xml"@)
        },
{
    reveal_strlit("application/xhtml+xml");
    reveal_strlit("image/svg+xml");
    reveal_strlit("+xml");
    assert("application/xhtml+xml"@ =~= "application/xhtml+xml"@.take(17) + "+xml"@);
    assert("image/svg+xml"@ =~= "image/svg+xml"@.take(9) + "+xml"@);
    let n = "+xml"@.len() as int;
    if mime.len() >= n && mime.skip(mime.len() - n) == "+xml"@ {
        assert(mime =~= mime.take(mime.len() - n) + "+xml"@);
    }
    if exists|front: Seq<char>| mime == #[trigger] (front + "+xml"@) {
        let front = choose|front: Seq<char>| mime == #[trigger] (front + "+xml"@);
        assert(mime.skip(mime.len() - n) =~= "+xml"@);
    }
}

proof fn lemma_trim_alike(a: Seq<char>, b: Seq<char>)
    requires
        a.len() == b.len(),
        forall|i: int| 0 <= i < a.len() ==> lower_ascii(#[trigger] a[i]) == lower_ascii(b[i]),
    ensures
        trim_front(a).len() == trim_front(b).len(),
        forall|i: int|
            0 <= i < trim_front(a).len() ==> lower_ascii(#[trigger] trim_front(a)[i])
                == lower_ascii(trim_front(b)[i]),
        trim_back(a).len() == trim_back(b).len(),
        forall|i: int|
            0 <= i < trim_back(a).len() ==> lower_ascii(#[trigger] trim_back(a)[i])
                == lower_ascii(trim_back(b)[i]),
    decreases a.len(),
{
    if a.len() > 0 {
        assert(lower_ascii(a[0]) == lower_ascii(b[0]));
        assert(lower_ascii(a.last()) == lower_ascii(b.last())) by {
            assert(lower_ascii(a[a.len() - 1]) == lower_ascii(b[a.len() - 1]));
        }
        lemma_white_is_no_letter(a[0], b[0]);
        lemma_white_is_no_letter(a.last(), b.last());
        assert forall|i: int| 0 <= i < a.drop_first().len() implies lower_ascii(
            #[trigger] a.drop_first()[i],
        ) == lower_ascii(b.drop_first()[i]) by {
            assert(lower_ascii(a[i + 1]) == lower_ascii(b[i + 1]));
        }
        assert forall|i: int| 0 <= i < a.drop_last().len() implies lower_ascii(
            #[trigger] a.drop_last()[i],
        ) == lower_ascii(b.drop_last()[i]) by {
            assert(lower_ascii(a[i]) == lower_ascii(b[i]));
        }
        lemma_trim_alike(a.drop_first(), b.drop_first());
        lemma_trim_alike(a.drop_last(), b.drop_last());
    }
}

proof fn lemma_white_is_no_letter(a: char, b: char)
    requires
        lower_ascii(a) == lower_ascii(b),
    ensures
        white(a) <==> white(b),
        a == ';' <==> b == ';',
{
}

proof fn lemma_parameters_start_alike(a: Seq<char>, b: Seq<char>, i: int)
    requires
        a.len() == b.len(),
        0 <= i <= a.len(),
        forall|k: int| 0 <= k < a.len() ==> lower_ascii(#[trigger] a[k]) == lower_ascii(b[k]),
    ensures
        parameter_start(a, i) == parameter_start(b, i),
        i <= parameter_start(a, i) <= a.len(),
    decreases a.len() - i,
{
    if i < a.len() {
        lemma_white_is_no_letter(a[i], b[i]);
        if a[i] != ';' {
            lemma_parameters_start_alike(a, b, i + 1);
        }
    }
}

/// Whether content is active does not depend on the case in which its type is written.
pub proof fn law_case_does_not_matter(a: Seq<char>, b: Seq<char>)
    requires
        a.len() == b.len(),
        forall|i: int|
            0 <= i < a.len() ==> #[trigger] a[i] == b[i] || ('A' <= a[i] <= 'Z' && b[i] as int
                == a[i] as int + 32),
    ensures
        essence(a) == essence(b),
{
    assert forall|k: int| 0 <= k < a.len() implies lower_ascii(#[trigger] a[k]) == lower_ascii(
        b[k],
    ) by {
        if a[k] != b[k] {
            assert('a' <= b[k] <= 'z');
        }
    }
    lemma_parameters_start_alike(a, b, 0);
    let n = parameter_start(a, 0);
    let fa = a.take(n);
    let fb = b.take(n);
    assert forall|i: int| 0 <= i < fa.len() implies lower_ascii(#[trigger] fa[i]) == lower_ascii(
        fb[i],
    ) by {
        assert(lower_ascii(a[i]) == lower_ascii(b[i]));
    }
    lemma_trim_alike(fa, fb);
    let ta = trim_front(fa);
    let tb = trim_front(fb);
    lemma_trim_alike(ta, tb);
    assert(essence(a) =~= essence(b));
}

/// The type of a file tells what its name and its first bytes tell: text is named with its
/// encoding, other content without one, and an unknown name is no reason to hide the content.
pub proof fn law_types_follow_name_and_bytes(buffer: Seq<u8>, name: Seq<char>)
    ensures
        guessed_mime(name) matches Some(m) ==> !looks_like_text(buffer) ==> sniffed(buffer, name)
            == m,
        guessed_mime(name) matches Some(m) ==> looks_like_text(buffer) ==> sniffed(buffer, name)
            == m + "; charset="@ + guessed_charset(buffer, buffer.len() < 1024),
        guessed_mime(name) is None && looks_like_text(buffer) ==> sniffed(buffer, name)
            == "text/plain"@ + "; charset="@ + guessed_charset(buffer, buffer.len() < 1024),
        guessed_mime(name) is None && !looks_like_text(buffer) ==> sniffed(buffer, name)
            == "application/octet-stream"@,
{
}

/// An asset that the client lacks is sent in full, under its type, and may be kept forever; the
/// conditions of the request decide for any asset alike.
pub proof fn law_assets_are_sent(
    before: Response,
    after: Response,
    asset: EmbeddedAsset,
    body: Seq<u8>,
    outcome: ReadPreconditionOutcome,
    head_only: bool,
)
    requires
        asset_sent(before, after, asset, body, outcome, head_only),
    ensures
        outcome is Proceed && !head_only ==> after.body.is_bytes(body),
        outcome is Proceed ==> after.status == before.status,
        outcome is NotModified ==> after.status == StatusCode::NotModified,
        outcome is PreconditionFailed ==> after.status == StatusCode::PreconditionFailed,
        outcome !is Proceed || head_only ==> after.body == before.body,
        outcome !is PreconditionFailed ==> after.has(Field::ContentLength, decimal(body.len())),
        outcome is PreconditionFailed ==> after.has(Field::ContentLength, decimal(0)),
        after.has(Field::ContentType, encode_utf8(asset.mime())),
        after.has(Field::Etag, encode_utf8("\"sha256:"@ + lower_hex(sha256(body)) + "\""@)),
        after.has(Field::CacheControl, encode_utf8("public, max-age=31536000, immutable"@)),
        after.has(Field::ContentTypeOptions, encode_utf8("nosniff"@)),
{
    lemma_field_keys_differ(Field::ContentLength, Field::ContentType);
    lemma_field_keys_differ(Field::ContentLength, Field::Etag);
    lemma_field_keys_differ(Field::ContentLength, Field::CacheControl);
    lemma_field_keys_differ(Field::ContentLength, Field::ContentTypeOptions);
    lemma_field_keys_differ(Field::ContentType, Field::Etag);
    lemma_field_keys_differ(Field::ContentType, Field::CacheControl);
    lemma_field_keys_differ(Field::ContentType, Field::ContentTypeOptions);
    lemma_field_keys_differ(Field::Etag, Field::CacheControl);
    lemma_field_keys_differ(Field::Etag, Field::ContentTypeOptions);
    lemma_field_keys_differ(Field::CacheControl, Field::ContentTypeOptions);
}

/// The health endpoint is available exactly where the server is ready, says so in its text, and
/// is never kept.
pub proof fn law_health_tells_readiness(
    before: Response,
    after: Response,
    ready: bool,
    head_only: bool,
)
    requires
        health_sent(before, after, ready, head_only),
    ensures
        ready ==> after.status == before.status,
        !ready ==> after.status == StatusCode::ServiceUnavailable,
        !head_only && ready ==> after.body.is_bytes(encode_utf8("{\"status\":\"OK\"}"@)),
        !head_only && !ready ==> after.body.is_bytes(
            encode_utf8("{\"status\":\"UNAVAILABLE\"}"@),
        ),
        head_only ==> after.body == before.body,
        after.has(Field::ContentType, encode_utf8("application/json"@)),
        after.has(Field::CacheControl, encode_utf8("no-store"@)),
        !head_only ==> (after.body matches Body::Full { bytes } && after.has(
            Field::ContentLength,
            decimal(bytes@.len()),
        )),
{
    lemma_field_keys_differ(Field::ContentLength, Field::ContentType);
    lemma_field_keys_differ(Field::ContentLength, Field::CacheControl);
    lemma_field_keys_differ(Field::ContentType, Field::CacheControl);
}

/// A path leads to an asset exactly where it is the prefix of assets followed by the asset's
/// name, and to the health endpoint where it is that endpoint's path; other paths are served.
pub proof fn law_internal_paths(req_path: Seq<char>, asset_prefix: Seq<char>, route: InternalRoute)
    requires
        leads(req_path, asset_prefix, route),
    ensures
        route matches InternalRoute::Asset { name } ==> req_path == asset_prefix + name@,
        (exists|name: Seq<char>| req_path == #[trigger] (asset_prefix + name)) ==> route is Asset,
        req_path == "__ram__/health"@ && !(route is Asset) ==> route is Health,
        route is Health ==> req_path == "__ram__/health"@,
        route is NotInternal ==> req_path != "__ram__/health"@,
{
    if starts_with(req_path, asset_prefix) {
        assert(req_path =~= asset_prefix + req_path.skip(asset_prefix.len() as int));
    }
    if exists|name: Seq<char>| req_path == #[trigger] (asset_prefix + name) {
        let name = choose|name: Seq<char>| req_path == #[trigger] (asset_prefix + name);
        assert(req_path.take(asset_prefix.len() as int) =~= asset_prefix);
    }
}

/// A generated representation is sent exactly where its conditions let it: a client that has it
/// is told so, and a condition that fails is answered without it. It always carries the validator
/// of its own bytes.
pub proof fn law_generated_pages_keep_their_conditions(
    before: Response,
    after: Response,
    output: Seq<u8>,
    outcome: ReadPreconditionOutcome,
)
    requires
        generated_applied(before, after, output, outcome),
    ensures
        outcome is Proceed ==> after.status == before.status,
        outcome is NotModified ==> after.status == StatusCode::NotModified,
        outcome is PreconditionFailed ==> after.status == StatusCode::PreconditionFailed,
        after.has(Field::Etag, encode_utf8("\"sha256:"@ + lower_hex(sha256(output)) + "\""@)),
        outcome is PreconditionFailed ==> after.has(Field::ContentLength, decimal(0)),
        after.body == before.body,
        forall|field: Field|
            field != Field::Etag && field != Field::ContentLength ==> (#[trigger] after.lacks(field)
                <==> before.lacks(field)),
{
    lemma_field_keys_differ(Field::ContentLength, Field::Etag);
    assert forall|field: Field|
        field != Field::Etag && field != Field::ContentLength implies #[trigger] after.lacks(field)
        == before.lacks(field) by {
        lemma_field_keys_differ(field, Field::Etag);
        lemma_field_keys_differ(field, Field::ContentLength);
    }
}

/// The error page is shown in place under the status that nothing was found, and can run nothing.
pub proof fn law_error_pages_say_not_found(before: Response, after: Response, shown: Presentation)
    requires
        shows_error_page(before, after, shown),
    ensures
        after.status == StatusCode::NotFound,
        shown.inline,
        after.body == before.body,
        after.has(
            Field::ContentSecurityPolicy,
            encode_utf8("sandbox; default-src 'none'; style-src 'unsafe-inline'; img-src data:"@),
        ),
{
}

/// A beginning is taken off exactly where the text has it, and what is left makes the text with
/// it.
pub proof fn law_stripped_texts(text: Seq<char>, prefix: Seq<char>, rest: Option<String>)
    requires
        prefix_stripped(text, prefix, rest),
    ensures
        rest is Some <==> prefix.len() <= text.len() && text.take(prefix.len() as int) == prefix,
        rest matches Some(found) ==> prefix + found@ == text,
{
    if prefix.len() <= text.len() {
        assert(text.take(prefix.len() as int) + text.skip(prefix.len() as int) =~= text);
    }
}

/// An opened object is sent exactly where it is a regular file and the request may have it.
pub proof fn law_only_files_are_sent(metadata: Metadata, allowed: bool, sendable: bool)
    requires
        sending_decided(metadata, allowed, sendable),
    ensures
        sendable <==> metadata.mode & 0o170000 == 0o100000 && allowed,
{
}

/// A file is shown as a text exactly where it is small enough and begins like one.
pub proof fn law_texts_are_viewable(len: u64, first_bytes: Seq<u8>, viewable: bool)
    requires
        viewing_decided(len, first_bytes, viewable),
    ensures
        viewable <==> len <= 4194304 && looks_like_text(first_bytes),
{
    assert(TEXT_VIEW_MAX_SIZE == 4194304);
}

/// A text without zero bytes that is not a known binary is taken for one.
pub proof fn law_texts_look_like_text(bytes: Seq<u8>)
    requires
        forall|i: int| 0 <= i < bytes.len() ==> 9 <= #[trigger] bytes[i] < 128,
        bytes.len() > 0 && bytes[0] != 37,
    ensures
        looks_like_text(bytes),
{
}

/// The conditions of a read decide the answer: one that fails is told so, a representation that
/// the client has is not sent again, and anything else goes on as it was.
pub proof fn law_read_conditions_decide(
    before: Response,
    after: Response,
    outcome: ReadPreconditionOutcome,
)
    requires
        read_outcome_applied(before, after, outcome),
    ensures
        after.body == before.body,
        outcome is Proceed ==> after.status == before.status,
        outcome is NotModified ==> after.status is NotModified,
        outcome is PreconditionFailed ==> after.status is PreconditionFailed,
        outcome !is PreconditionFailed ==> after.fields() == before.fields(),
        outcome is PreconditionFailed ==> after.has(Field::ContentLength, decimal(0)),
{
}

/// Different digests make different tags.
pub proof fn law_tags_tell_digests_apart(a: Seq<u8>, b: Seq<u8>)
    requires
        a.len() == b.len(),
        etag_text(a) == etag_text(b),
    ensures
        a == b,
{
    let front = "\"sha256:"@;
    let back = "\""@;
    assert forall|i: int| 0 <= i < a.len() implies a[i] == b[i] by {
        assert(etag_text(a)[front.len() + 2 * i] == lower_hex(a)[2 * i]);
        assert(etag_text(b)[front.len() + 2 * i] == lower_hex(b)[2 * i]);
        assert(etag_text(a)[front.len() + 2 * i + 1] == lower_hex(a)[2 * i + 1]);
        assert(etag_text(b)[front.len() + 2 * i + 1] == lower_hex(b)[2 * i + 1]);
        assert((2 * i) / 2 == i && (2 * i) % 2 == 0);
        assert((2 * i + 1) / 2 == i && (2 * i + 1) % 2 == 1);
    }
    assert(a =~= b);
}

proof fn lemma_parameters_start(text: Seq<char>, n: int, i: int)
    requires
        0 <= i <= n <= text.len(),
        forall|k: int| 0 <= k < n ==> #[trigger] text[k] != ';',
        n < text.len() ==> text[n] == ';',
    ensures
        parameter_start(text, i) == n,
    decreases n - i,
{
    if i < n {
        assert(text[i] != ';');
        lemma_parameters_start(text, n, i + 1);
    }
}

/// The type of content is what stands before its parameters: they do not change it, and neither
/// does white space around it. A type in lower case stays as it is.
pub proof fn law_parameters_do_not_change_the_type(
    mime: Seq<char>,
    parameters: Seq<char>,
)
    requires
        mime.len() > 0,
        forall|k: int|
            0 <= k < mime.len() ==> '!' <= #[trigger] mime[k] <= '~' && mime[k] != ';' && !('A'
                <= mime[k] <= 'Z'),
    ensures
        essence(mime) == mime,
        essence(mime + seq![';'] + parameters) == mime,
        essence(seq![' '] + mime + seq![' '] + seq![';'] + parameters) == mime,
{
    assert(!white(mime[0]) && !white(mime.last()));
    assert(mime.map_values(|c: char| lower_ascii(c)) =~= mime);
    assert(trim_front(mime) == mime);
    assert(trim_back(mime) == mime);
    lemma_parameters_start(mime, mime.len() as int, 0);
    assert(mime.take(mime.len() as int) =~= mime);
    let whole = mime + seq![';'] + parameters;
    lemma_parameters_start(whole, mime.len() as int, 0);
    assert(whole.take(mime.len() as int) =~= mime);
    let front = seq![' '] + mime + seq![' '];
    let wide = front + seq![';'] + parameters;
    lemma_parameters_start(wide, front.len() as int, 0);
    assert(wide.take(front.len() as int) =~= front);
    assert(front.drop_first() =~= mime + seq![' ']);
    assert(white(front[0]));
    let tail = mime + seq![' '];
    assert(tail[0] == mime[0]);
    assert(trim_front(tail) == tail);
    assert(trim_front(front) == trim_front(front.drop_first()));
    assert(tail.drop_last() =~= mime);
    assert(white(tail.last()));
    assert(trim_back(tail) == trim_back(tail.drop_last()));
}

} // verus!
