//! The calls into outside crates and the parts of std that have no
//! specification of their own. What stands here is trusted, not proved.

use vstd::prelude::*;
use base64::Engine;
use sha2::Digest;
use vstd::utf8::{encode_utf8, valid_utf8};
use crate::encoding::{base64url, uuid_value};
use crate::http::scrub::{form_query, form_text, pair_views};
use crate::openapi::yaml::{Layer, YamlTree};
use crate::text::{hex_text, u128_hex, u128_hyphenated};

verus! {

/// `serde_json::Value`, carried through untouched.
#[verifier::external_type_specification]
#[verifier::external_body]
pub struct ExJsonValue(serde_json::Value);

/// `String::push` appends one character.
pub assume_specification[ String::push ](s: &mut String, c: char)
    ensures
        final(s)@ == old(s)@.push(c),
;

/// The earliest instant that `chrono::DateTime<Utc>` holds, in microseconds
/// since the Unix epoch.
pub const MIN_MICROS: i64 = -8334601228800000000;

/// The latest instant that `chrono::DateTime<Utc>` holds, in whole
/// microseconds since the Unix epoch.
pub const MAX_MICROS: i64 = 8210266876799999999;

/// `DateTime::from_timestamp_micros`: an instant exists exactly for the
/// microsecond counts of the years -262143 to 262142.
#[verifier::external_body]
pub(crate) fn instant_exists(micros: i64) -> (r: bool)
    ensures
        r == (MIN_MICROS <= micros <= MAX_MICROS),
{
    chrono::DateTime::from_timestamp_micros(micros).is_some()
}

/// `Uuid::as_simple`, printed: the 32 lower-case hexadecimal digits of the
/// identifier, most significant first.
#[verifier::external_body]
pub(crate) fn uuid_simple(id: u128) -> (r: String)
    ensures
        r@ == u128_hex(id),
{
    uuid::Uuid::from_u128(id).as_simple().to_string()
}

/// `Uuid`, printed: its digits in the hyphenated form. Its `Debug` form is the
/// same text.
#[verifier::external_body]
pub(crate) fn uuid_hyphenated(id: u128) -> (r: String)
    ensures
        r@ == u128_hyphenated(id),
{
    uuid::Uuid::from_u128(id).to_string()
}

/// `Uuid::from_str`: reads 32 hexadecimal digits of either case, bare or in
/// one of the hyphenated forms, and nothing else.
#[verifier::external_body]
pub(crate) fn uuid_parse(text: &str) -> (r: Option<u128>)
    ensures
        r == uuid_value(text@),
{
    text.parse::<uuid::Uuid>().ok().map(|id| id.as_u128())
}

/// `URL_SAFE_NO_PAD.encode`: the bytes of `text` in URL-safe Base64 without
/// padding. The bound keeps the result allocatable.
#[verifier::external_body]
pub(crate) fn base64url_encode(text: &str) -> (r: String)
    requires
        2 * encode_utf8(text@).len() <= isize::MAX,
    ensures
        r@ == base64url(encode_utf8(text@)),
{
    base64::engine::general_purpose::URL_SAFE_NO_PAD.encode(text)
}

/// `URL_SAFE_NO_PAD.decode`: the bytes whose canonical text this is. Padding,
/// other characters and set trailing bits are refused.
#[verifier::external_body]
pub(crate) fn base64url_decode(text: &str) -> (r: Option<Vec<u8>>)
    ensures
        match r {
            Some(bytes) => text@ == base64url(bytes@),
            None => forall|bytes: Seq<u8>| text@ != #[trigger] base64url(bytes),
        },
{
    base64::engine::general_purpose::URL_SAFE_NO_PAD.decode(text).ok()
}

/// `String::from_utf8`: the text that the bytes encode, if they are UTF-8.
#[verifier::external_body]
pub(crate) fn string_from_utf8(bytes: Vec<u8>) -> (r: Option<String>)
    ensures
        match r {
            Some(s) => bytes@ == encode_utf8(s@),
            None => !valid_utf8(bytes@),
        },
{
    String::from_utf8(bytes).ok()
}

/// The SHA-256 digest of a message.
pub uninterp spec fn sha256(message: Seq<u8>) -> Seq<u8>;

/// `Sha256::digest` of the bytes of `text`: 32 bytes.
#[verifier::external_body]
pub(crate) fn sha256_digest(text: &str) -> (r: Vec<u8>)
    ensures
        r@ == sha256(encode_utf8(text@)),
        r@.len() == 32,
{
    sha2::Sha256::digest(text.as_bytes()).to_vec()
}

/// `hex::encode`: lower-case hexadecimal, two digits to a byte. The bound
/// keeps the result allocatable.
#[verifier::external_body]
pub(crate) fn hex_encode(bytes: &Vec<u8>) -> (r: String)
    requires
        2 * bytes@.len() <= isize::MAX,
    ensures
        r@ == hex_text(bytes@),
{
    hex::encode(bytes)
}

/// An instant in RFC 3339, in UTC with microseconds.
pub uninterp spec fn rfc3339_micros(micros: i64) -> Seq<char>;

/// `DateTime::to_rfc3339_opts` with microseconds and `Z`, for an instant that
/// exists.
#[verifier::external_body]
pub(crate) fn rfc3339_text(micros: i64) -> (r: String)
    requires
        MIN_MICROS <= micros <= MAX_MICROS,
    ensures
        r@ == rfc3339_micros(micros),
{
    let instant = chrono::DateTime::from_timestamp_micros(micros).unwrap();
    instant.to_rfc3339_opts(chrono::SecondsFormat::Micros, true)
}

/// The name and value pairs of a query string, percent-decoded.
pub uninterp spec fn form_pairs(query: Seq<char>) -> Seq<(Seq<char>, Seq<char>)>;

/// `form_urlencoded::parse`, collected. Reading gives back what was written:
/// of pairs that were form-encoded, each with its `=`, and joined by `&`, it
/// returns these pairs.
#[verifier::external_body]
pub(crate) fn form_parse(query: &str) -> (r: Vec<(String, String)>)
    ensures
        pair_views(r@) == form_pairs(query@),
        forall|pairs: Seq<(Seq<char>, Seq<char>)>|
            query@ == #[trigger] form_query(pairs) ==> pair_views(r@) == pairs,
{
    form_urlencoded::parse(query.as_bytes()).into_owned().collect()
}

/// `form_urlencoded::byte_serialize`, collected: letters, digits and `*-._`
/// stay, a space becomes `+`, any other byte is percent-encoded in upper case.
#[verifier::external_body]
pub(crate) fn form_serialize(text: &str) -> (r: String)
    ensures
        r@ == form_text(encode_utf8(text@)),
{
    form_urlencoded::byte_serialize(text.as_bytes()).collect()
}

/// `serde_norway::Value`: a YAML value.
#[verifier::external_type_specification]
#[verifier::external_body]
pub struct ExYamlValue(serde_norway::Value);

/// `serde_norway::Number`, carried through untouched.
#[verifier::external_type_specification]
#[verifier::external_body]
pub struct ExYamlNumber(serde_norway::Number);

/// `serde_norway::value::Tag`, carried through untouched.
#[verifier::external_type_specification]
#[verifier::external_body]
pub struct ExYamlTag(serde_norway::value::Tag);

/// `serde_norway::Error`, carried through untouched.
#[verifier::external_type_specification]
#[verifier::external_body]
pub struct ExYamlError(serde_norway::Error);

/// What a `serde_norway::Value` holds.
pub uninterp spec fn value_tree(value: serde_norway::Value) -> YamlTree;

/// The variants of `serde_norway::Value`, one level deep, the entries of a
/// mapping in their order.
#[verifier::external_body]
pub(crate) fn take_apart(value: serde_norway::Value) -> (r: Layer)
    ensures
        r.tree() == value_tree(value),
{
    match value {
        serde_norway::Value::Null => Layer::Null,
        serde_norway::Value::Bool(b) => Layer::Bool(b),
        serde_norway::Value::Number(n) => Layer::Number(n),
        serde_norway::Value::String(s) => Layer::Text(s),
        serde_norway::Value::Sequence(items) => Layer::Sequence(items),
        serde_norway::Value::Mapping(m) => Layer::Mapping(m.into_iter().collect()),
        serde_norway::Value::Tagged(t) => Layer::Tagged(t.tag, t.value),
    }
}

/// A `serde_norway::Value` from one level of it. Collecting the entries of a
/// mapping keeps them, in order, when their keys are texts and no two alike;
/// of other keys nothing is said.
#[verifier::external_body]
pub(crate) fn put_together(layer: Layer) -> (r: serde_norway::Value)
    ensures
        layer.is_plain() ==> value_tree(r) == layer.tree(),
{
    match layer {
        Layer::Null => serde_norway::Value::Null,
        Layer::Bool(b) => serde_norway::Value::Bool(b),
        Layer::Number(n) => serde_norway::Value::Number(n),
        Layer::Text(s) => serde_norway::Value::String(s),
        Layer::Sequence(items) => serde_norway::Value::Sequence(items),
        Layer::Mapping(m) => serde_norway::Value::Mapping(m.into_iter().collect()),
        Layer::Tagged(tag, value) => {
            serde_norway::Value::Tagged(Box::new(serde_norway::value::TaggedValue { tag, value }))
        },
    }
}

/// What a YAML text holds, if it can be read.
pub uninterp spec fn yaml_tree(text: Seq<char>) -> Option<YamlTree>;

/// `serde_norway::from_str`.
#[verifier::external_body]
pub(crate) fn yaml_parse(text: &str) -> (r: Result<serde_norway::Value, serde_norway::Error>)
    ensures
        match r {
            Ok(value) => yaml_tree(text@) == Some(value_tree(value)),
            Err(_) => yaml_tree(text@) is None,
        },
{
    serde_norway::from_str(text)
}

/// The YAML text of a value, if it can be written.
pub uninterp spec fn yaml_text(tree: YamlTree) -> Option<Seq<char>>;

/// `serde_norway::to_string`.
#[verifier::external_body]
pub(crate) fn yaml_print(value: &serde_norway::Value) -> (r: Result<String, serde_norway::Error>)
    ensures
        match r {
            Ok(text) => yaml_text(value_tree(*value)) == Some(text@),
            Err(_) => yaml_text(value_tree(*value)) is None,
        },
{
    serde_norway::to_string(value)
}

/// The YAML number of an integer.
pub uninterp spec fn yaml_integer(n: u64) -> serde_norway::Number;

/// `serde_norway::Number::from`.
#[verifier::external_body]
pub(crate) fn yaml_number(n: u64) -> (r: serde_norway::Number)
    ensures
        r == yaml_integer(n),
{
    serde_norway::Number::from(n)
}

} // verus!
