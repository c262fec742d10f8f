//! Responses under construction: a status, header fields and a body.
use vstd::prelude::*;
use vstd::utf8::*;
use headers::HeaderMapExt;
use crate::text::{decimal, decimal_digits, lemma_decimal_digits};

verus! {

/// `http::HeaderMap`, the collection of header fields of a message.
#[verifier::external_type_specification]
#[verifier::external_body]
#[verifier::reject_recursive_types(T)]
pub struct ExHeaderMap<T>(hyper::HeaderMap<T>);

/// `http::HeaderValue`, one value of a field.
#[verifier::external_type_specification]
#[verifier::external_body]
pub struct ExHeaderValue(hyper::header::HeaderValue);

/// What a header map holds: each field name, in lower case, with its values in order.
pub uninterp spec fn fields(headers: hyper::HeaderMap) -> Map<Seq<char>, Seq<Seq<u8>>>;

/// The status codes that the server answers with.
#[derive(Clone, Copy, Debug, PartialEq, Eq, Structural)]
pub enum StatusCode {
    Success,
    PartialContent,
    NotModified,
    BadRequest,
    Unauthorized,
    Forbidden,
    NotFound,
    MethodNotAllowed,
    Conflict,
    PreconditionFailed,
    PayloadTooLarge,
    RangeNotSatisfiable,
    UnprocessableEntity,
    TooManyRequests,
    InternalServerError,
    ServiceUnavailable,
    GatewayTimeout,
    InsufficientStorage,
}

impl StatusCode {
    /// The number on the wire.
    pub open spec fn code(self) -> u16 {
        match self {
            StatusCode::Success => 200,
            StatusCode::PartialContent => 206,
            StatusCode::NotModified => 304,
            StatusCode::BadRequest => 400,
            StatusCode::Unauthorized => 401,
            StatusCode::Forbidden => 403,
            StatusCode::NotFound => 404,
            StatusCode::MethodNotAllowed => 405,
            StatusCode::Conflict => 409,
            StatusCode::PreconditionFailed => 412,
            StatusCode::PayloadTooLarge => 413,
            StatusCode::RangeNotSatisfiable => 416,
            StatusCode::UnprocessableEntity => 422,
            StatusCode::TooManyRequests => 429,
            StatusCode::InternalServerError => 500,
            StatusCode::ServiceUnavailable => 503,
            StatusCode::GatewayTimeout => 504,
            StatusCode::InsufficientStorage => 507,
        }
    }

    pub fn as_u16(self) -> (code: u16)
        ensures
            code == self.code(),
    {
        match self {
            StatusCode::Success => 200,
            StatusCode::PartialContent => 206,
            StatusCode::NotModified => 304,
            StatusCode::BadRequest => 400,
            StatusCode::Unauthorized => 401,
            StatusCode::Forbidden => 403,
            StatusCode::NotFound => 404,
            StatusCode::MethodNotAllowed => 405,
            StatusCode::Conflict => 409,
            StatusCode::PreconditionFailed => 412,
            StatusCode::PayloadTooLarge => 413,
            StatusCode::RangeNotSatisfiable => 416,
            StatusCode::UnprocessableEntity => 422,
            StatusCode::TooManyRequests => 429,
            StatusCode::InternalServerError => 500,
            StatusCode::ServiceUnavailable => 503,
            StatusCode::GatewayTimeout => 504,
            StatusCode::InsufficientStorage => 507,
        }
    }

    pub fn is_server_error(self) -> (server: bool)
        ensures
            server == (500 <= self.code() < 600),
    {
        let code: u16 = self.as_u16();
        500 <= code && code < 600
    }
}

/// The header fields that the server sets or removes.
#[derive(Clone, Copy, Debug, PartialEq, Eq, Structural)]
pub enum Field {
    AcceptRanges,
    Allow,
    CacheControl,
    ContentDisposition,
    ContentEncoding,
    ContentLength,
    ContentRange,
    ContentSecurityPolicy,
    ContentType,
    ContentTypeOptions,
    Etag,
    LastModified,
    ListOmitted,
    ListTruncated,
    RetryAfter,
}

impl Field {
    /// The field's name on the wire.
    pub open spec fn key(self) -> Seq<char> {
        match self {
            Field::AcceptRanges => "accept-ranges"@,
            Field::Allow => "allow"@,
            Field::CacheControl => "cache-control"@,
            Field::ContentDisposition => "content-disposition"@,
            Field::ContentEncoding => "content-encoding"@,
            Field::ContentLength => "content-length"@,
            Field::ContentRange => "content-range"@,
            Field::ContentSecurityPolicy => "content-security-policy"@,
            Field::ContentType => "content-type"@,
            Field::ContentTypeOptions => "x-content-type-options"@,
            Field::Etag => "etag"@,
            Field::LastModified => "last-modified"@,
            Field::ListOmitted => "x-ram-list-omitted"@,
            Field::ListTruncated => "x-ram-list-truncated"@,
            Field::RetryAfter => "retry-after"@,
        }
    }

    pub fn name(self) -> (name: &'static str)
        ensures
            name@ == self.key(),
    {
        match self {
            Field::AcceptRanges => "accept-ranges",
            Field::Allow => "allow",
            Field::CacheControl => "cache-control",
            Field::ContentDisposition => "content-disposition",
            Field::ContentEncoding => "content-encoding",
            Field::ContentLength => "content-length",
            Field::ContentRange => "content-range",
            Field::ContentSecurityPolicy => "content-security-policy",
            Field::ContentType => "content-type",
            Field::ContentTypeOptions => "x-content-type-options",
            Field::Etag => "etag",
            Field::LastModified => "last-modified",
            Field::ListOmitted => "x-ram-list-omitted",
            Field::ListTruncated => "x-ram-list-truncated",
            Field::RetryAfter => "retry-after",
        }
    }
}


/// No two fields share a name.
pub proof fn lemma_field_keys_differ(a: Field, b: Field)
    requires
        a != b,
    ensures
        a.key() != b.key(),
{
    reveal_strlit("accept-ranges");
    reveal_strlit("allow");
    reveal_strlit("cache-control");
    reveal_strlit("content-disposition");
    reveal_strlit("content-encoding");
    reveal_strlit("content-length");
    reveal_strlit("content-range");
    reveal_strlit("content-security-policy");
    reveal_strlit("content-type");
    reveal_strlit("x-content-type-options");
    reveal_strlit("etag");
    reveal_strlit("last-modified");
    reveal_strlit("x-ram-list-omitted");
    reveal_strlit("x-ram-list-truncated");
    reveal_strlit("retry-after");
    assert("accept-ranges"@.len() == 13);
    assert("allow"@.len() == 5);
    assert("cache-control"@.len() == 13);
    assert("content-disposition"@.len() == 19);
    assert("content-encoding"@.len() == 16);
    assert("content-length"@.len() == 14);
    assert("content-range"@.len() == 13);
    assert("content-security-policy"@.len() == 23);
    assert("content-type"@.len() == 12);
    assert("x-content-type-options"@.len() == 22);
    assert("etag"@.len() == 4);
    assert("last-modified"@.len() == 13);
    assert("x-ram-list-omitted"@.len() == 18);
    assert("x-ram-list-truncated"@.len() == 20);
    assert("retry-after"@.len() == 11);
    // The names of one length differ in their first two letters.
    assert("accept-ranges"@[0] == 'a');
    assert("cache-control"@[0] == 'c' && "cache-control"@[1] == 'a');
    assert("content-range"@[0] == 'c' && "content-range"@[1] == 'o');
    assert("last-modified"@[0] == 'l');
}

/// Whether a name is that of one of the server's fields.
pub open spec fn server_field(key: Seq<char>) -> bool {
    exists|f: Field| #[trigger] f.key() == key
}

/// How many fields a response may carry besides the server's own. A header map has room for many
/// more.
pub const MAX_FOREIGN_FIELDS: usize = 4096;

/// The names of the fields that are not the server's own.
pub open spec fn foreign_fields(m: Map<Seq<char>, Seq<Seq<u8>>>) -> Set<Seq<char>> {
    m.dom().filter(|key: Seq<char>| !server_field(key))
}

/// Whether there is room for all of the server's fields.
pub open spec fn roomy(m: Map<Seq<char>, Seq<Seq<u8>>>) -> bool {
    foreign_fields(m).finite() && foreign_fields(m).len() <= MAX_FOREIGN_FIELDS
}

pub proof fn lemma_roomy_with(m: Map<Seq<char>, Seq<Seq<u8>>>, field: Field, value: Seq<u8>)
    ensures
        foreign_fields(with_field(m, field, value)) == foreign_fields(m),
{
    assert(server_field(field.key()));
    assert(foreign_fields(with_field(m, field, value)) =~= foreign_fields(m));
}

pub proof fn lemma_roomy_without(m: Map<Seq<char>, Seq<Seq<u8>>>, field: Field)
    ensures
        foreign_fields(without_field(m, field)) == foreign_fields(m),
{
    assert(server_field(field.key()));
    assert(foreign_fields(without_field(m, field)) =~= foreign_fields(m));
}

/// A byte that a header value may hold.
pub open spec fn value_byte(b: u8) -> bool {
    b == 9 || (b >= 32 && b != 127)
}

/// Bytes that are a header value.
pub open spec fn field_value(value: Seq<u8>) -> bool {
    forall|i: int| 0 <= i < value.len() ==> value_byte(#[trigger] value[i])
}

/// Printable ASCII characters.
pub open spec fn printable(chars: Seq<char>) -> bool {
    forall|i: int| 0 <= i < chars.len() ==> ' ' <= #[trigger] chars[i] <= '~'
}

pub proof fn lemma_printable_is_field_value(chars: Seq<char>)
    requires
        printable(chars),
    ensures
        field_value(encode_utf8(chars)),
        encode_utf8(chars).len() == chars.len(),
{
    assert(is_ascii_chars(chars));
    is_ascii_chars_encode_utf8(chars);
    assert forall|i: int| 0 <= i < encode_utf8(chars).len() implies value_byte(
        #[trigger] encode_utf8(chars)[i],
    ) by {
        let c = chars[i];
        assert(c as u8 == encode_utf8(chars)[i]);
        assert(32 <= c as u32 && (c as u32) < 127);
    }
}

/// Caching rules for a response.
#[derive(Clone, Copy, Debug, PartialEq, Eq, Structural)]
pub enum CachePolicy {
    NoStore,
    PrivateNoCache,
    PrivateNoStore,
}

impl CachePolicy {
    pub open spec fn value(self) -> Seq<u8> {
        match self {
            CachePolicy::NoStore => encode_utf8("no-store"@),
            CachePolicy::PrivateNoCache => encode_utf8("no-cache, private"@),
            CachePolicy::PrivateNoStore => encode_utf8("no-store, private"@),
        }
    }
}

/// The fields after one of them was given a single value.
pub open spec fn with_field(
    m: Map<Seq<char>, Seq<Seq<u8>>>,
    field: Field,
    value: Seq<u8>,
) -> Map<Seq<char>, Seq<Seq<u8>>> {
    m.insert(field.key(), seq![value])
}

/// The fields without one of them.
pub open spec fn without_field(m: Map<Seq<char>, Seq<Seq<u8>>>, field: Field) -> Map<
    Seq<char>,
    Seq<Seq<u8>>,
> {
    m.remove(field.key())
}

/// No field at all.
pub open spec fn no_fields() -> Map<Seq<char>, Seq<Seq<u8>>> {
    Map::empty()
}

/// `http::HeaderMap::new` makes a map without fields.
#[verifier::external_body]
fn new_header_map() -> (made: hyper::HeaderMap)
    ensures
        fields(made) == no_fields(),
{
    hyper::HeaderMap::new()
}

/// `http::HeaderMap::insert` with `HeaderValue::from_bytes`: the value takes the place of all
/// values that the field had. An insertion is refused only by a map that holds more than six
/// thousand names already, and a map with room holds fewer.
#[verifier::external_body]
fn insert_field(headers: &mut hyper::HeaderMap, field: Field, value: &[u8])
    requires
        roomy(fields(*old(headers))),
        field_value(value@),
    ensures
        fields(*final(headers)) == with_field(fields(*old(headers)), field, value@),
{
    let value = hyper::header::HeaderValue::from_bytes(value).expect("a legal header value");
    headers.insert(hyper::header::HeaderName::from_static(field.name()), value);
}

/// `http::HeaderMap::remove`: the field and all its values are gone.
#[verifier::external_body]
fn remove_field(headers: &mut hyper::HeaderMap, field: Field)
    ensures
        fields(*final(headers)) == without_field(fields(*old(headers)), field),
{
    headers.remove(field.name());
}

/// `http::HeaderMap::contains_key`.
#[verifier::external_body]
fn contains_field(headers: &hyper::HeaderMap, field: Field) -> (present: bool)
    ensures
        present == fields(*headers).dom().contains(field.key()),
{
    headers.contains_key(field.name())
}

/// `headers::HeaderMapExt::typed_insert` with a `headers::CacheControl`, which writes its
/// directives in a fixed order, `no-cache` and `no-store` before `private`.
#[verifier::external_body]
fn insert_cache_control(headers: &mut hyper::HeaderMap, policy: CachePolicy)
    requires
        roomy(fields(*old(headers))),
    ensures
        fields(*final(headers)) == with_field(
            fields(*old(headers)),
            Field::CacheControl,
            policy.value(),
        ),
{
    let control = headers::CacheControl::new();
    headers.typed_insert(match policy {
        CachePolicy::NoStore => control.with_no_store(),
        CachePolicy::PrivateNoCache => control.with_private().with_no_cache(),
        CachePolicy::PrivateNoStore => control.with_private().with_no_store(),
    });
}

/// What follows the header of a response.
#[derive(Debug)]
pub enum Body {
    Empty,
    /// Bytes that are already there.
    Full { bytes: Vec<u8> },
    /// `length` bytes of the opened file, from `start` on.
    FileRange { start: u64, length: u64 },
    /// Several inclusive ranges of the opened file as parts of one message.
    Multipart { ranges: Vec<(u64, u64)>, boundary: String },
}

impl Body {
    /// The body is these bytes.
    pub open spec fn is_bytes(self, bytes: Seq<u8>) -> bool {
        self matches Body::Full { bytes: held } && held@ == bytes
    }
}

/// A response under construction.
#[derive(Debug)]
pub struct Response {
    pub status: StatusCode,
    pub headers: hyper::HeaderMap,
    pub body: Body,
}

impl Response {
    pub open spec fn fields(self) -> Map<Seq<char>, Seq<Seq<u8>>> {
        fields(self.headers)
    }

    /// There is room for the server's fields. Others may stand beside them.
    pub open spec fn wf(self) -> bool {
        roomy(self.fields())
    }

    /// The single value of a field.
    pub open spec fn has(self, field: Field, value: Seq<u8>) -> bool {
        self.fields().dom().contains(field.key()) && self.fields()[field.key()] == seq![value]
    }

    /// The field is not there.
    pub open spec fn lacks(self, field: Field) -> bool {
        !self.fields().dom().contains(field.key())
    }

    /// An empty success.
    pub fn new() -> (response: Response)
        ensures
            response.wf(),
            response.status == StatusCode::Success,
            response.fields() == no_fields(),
            response.body is Empty,
    {
        assert(foreign_fields(no_fields()) =~= Set::<Seq<char>>::empty());
        Response { status: StatusCode::Success, headers: new_header_map(), body: Body::Empty }
    }

    /// Gives a field one value, in place of all values it had.
    pub fn set(&mut self, field: Field, value: &[u8])
        requires
            old(self).wf(),
            field_value(value@),
        ensures
            final(self).wf(),
            final(self).fields() == with_field(old(self).fields(), field, value@),
            final(self).status == old(self).status,
            final(self).body == old(self).body,
    {
        proof {
            lemma_roomy_with(self.fields(), field, value@);
        }
        insert_field(&mut self.headers, field, value);
    }

    /// Gives a field a fixed text.
    pub fn set_text(&mut self, field: Field, value: &str)
        requires
            old(self).wf(),
            printable(value@),
        ensures
            final(self).wf(),
            final(self).fields() == with_field(old(self).fields(), field, encode_utf8(value@)),
            final(self).status == old(self).status,
            final(self).body == old(self).body,
    {
        proof {
            lemma_printable_is_field_value(value@);
        }
        self.set(field, value.as_bytes());
    }

    /// Gives a field a decimal number.
    pub fn set_number(&mut self, field: Field, value: u64)
        requires
            old(self).wf(),
        ensures
            final(self).wf(),
            final(self).fields() == with_field(old(self).fields(), field, decimal(value as nat)),
            final(self).status == old(self).status,
            final(self).body == old(self).body,
    {
        proof {
            lemma_decimal_digits(value as nat);
        }
        let digits = decimal_digits(value);
        self.set(field, digits.as_slice());
    }

    pub fn set_cache_policy(&mut self, policy: CachePolicy)
        requires
            old(self).wf(),
        ensures
            final(self).wf(),
            final(self).fields() == with_field(
                old(self).fields(),
                Field::CacheControl,
                policy.value(),
            ),
            final(self).status == old(self).status,
            final(self).body == old(self).body,
    {
        proof {
            lemma_roomy_with(self.fields(), Field::CacheControl, policy.value());
        }
        insert_cache_control(&mut self.headers, policy);
    }

    pub fn remove(&mut self, field: Field)
        requires
            old(self).wf(),
        ensures
            final(self).wf(),
            final(self).fields() == without_field(old(self).fields(), field),
            final(self).status == old(self).status,
            final(self).body == old(self).body,
    {
        proof {
            lemma_roomy_without(self.fields(), field);
        }
        remove_field(&mut self.headers, field);
    }

    pub fn contains(&self, field: Field) -> (present: bool)
        ensures
            present == !self.lacks(field),
    {
        contains_field(&self.headers, field)
    }
}

/// The numbers of the statuses on the wire.
pub proof fn law_status_numbers(status: StatusCode)
    ensures
        status is Success <==> status.code() == 200,
        status is PartialContent <==> status.code() == 206,
        status is NotModified <==> status.code() == 304,
        status is BadRequest <==> status.code() == 400,
        status is Unauthorized <==> status.code() == 401,
        status is Forbidden <==> status.code() == 403,
        status is NotFound <==> status.code() == 404,
        status is MethodNotAllowed <==> status.code() == 405,
        status is Conflict <==> status.code() == 409,
        status is PreconditionFailed <==> status.code() == 412,
        status is PayloadTooLarge <==> status.code() == 413,
        status is RangeNotSatisfiable <==> status.code() == 416,
        status is UnprocessableEntity <==> status.code() == 422,
        status is TooManyRequests <==> status.code() == 429,
        status is InternalServerError <==> status.code() == 500,
        status is ServiceUnavailable <==> status.code() == 503,
        status is GatewayTimeout <==> status.code() == 504,
        status is InsufficientStorage <==> status.code() == 507,
{
}

/// A field that is given a value has that value alone, one that is taken away is not there, and
/// the other fields stay as they are.
pub proof fn law_fields_hold_what_they_are_given(
    m: Map<Seq<char>, Seq<Seq<u8>>>,
    field: Field,
    value: Seq<u8>,
    other: Seq<char>,
)
    ensures
        with_field(m, field, value).dom().contains(field.key()),
        with_field(m, field, value)[field.key()] == seq![value],
        !without_field(m, field).dom().contains(field.key()),
        other != field.key() ==> {
            &&& with_field(m, field, value).dom().contains(other) <==> m.dom().contains(other)
            &&& without_field(m, field).dom().contains(other) <==> m.dom().contains(other)
            &&& m.dom().contains(other) ==> with_field(m, field, value)[other] == m[other]
            &&& m.dom().contains(other) ==> without_field(m, field)[other] == m[other]
        },
{
}

} // verus!
