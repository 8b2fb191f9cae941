use vstd::prelude::*;
use crate::pattern::pair_views;

verus! {

#[verifier::external_type_specification]
#[verifier::external_body]
pub struct ExJsonValue(serde_json::Value);

#[verifier::external_type_specification]
#[verifier::external_body]
pub struct ExJsonError(serde_json::Error);

#[verifier::external_type_specification]
#[verifier::external_body]
pub struct ExBase64DecodeError(base64::DecodeError);

#[verifier::external_type_specification]
#[verifier::external_body]
pub struct ExUrlencodedError(serde_urlencoded::de::Error);

/// The decoded (key, value) pairs that serde_urlencoded reads from a query string, in
/// order; none where it refuses the text.
pub uninterp spec fn urlencoded_pairs_of(q: Seq<char>) -> Option<Seq<(Seq<char>, Seq<char>)>>;

/// The value serde_json reads from bytes that hold exactly one JSON value.
pub uninterp spec fn json_decoded_of(b: Seq<u8>) -> Option<serde_json::Value>;

/// The compact serialization serde_json writes for a value.
pub uninterp spec fn json_bytes_of(v: serde_json::Value) -> Seq<u8>;

/// The text that `{:?}` writes for a value.
pub uninterp spec fn json_debug_of(v: serde_json::Value) -> Seq<char>;

/// The JSON object built from (key, string value) pairs.
pub uninterp spec fn json_object_of(pairs: Seq<(Seq<char>, Seq<char>)>) -> serde_json::Value;

/// Whether serde_json reads the bytes as exactly one JSON value.
pub open spec fn json_parses(b: Seq<u8>) -> bool {
    json_decoded_of(b) is Some
}

/// The standard, padded base64 text of some bytes.
pub uninterp spec fn base64_text_of(b: Seq<u8>) -> Seq<char>;

/// The bytes that a standard, padded base64 text stands for, if it is well formed.
pub uninterp spec fn base64_bytes_of(s: Seq<char>) -> Option<Seq<u8>>;

/// Relies on serde_urlencoded::from_str into a `Vec` of `String` pairs: the pairs in
/// order, percent-decoded and with `+` as a space, a function of the text alone; an
/// empty text holds no pair.
#[verifier::external_body]
pub(crate) fn decode_query(q: &str) -> (r: Result<Vec<(String, String)>, serde_urlencoded::de::Error>)
    ensures
        match r {
            Ok(v) => urlencoded_pairs_of(q@) == Some(pair_views(v@)),
            Err(_) => urlencoded_pairs_of(q@) is None,
        },
        q@.len() == 0 ==> r is Ok && r->Ok_0@.len() == 0,
{
    serde_urlencoded::from_str(q)
}

/// Relies on serde_json::from_slice into a `Value`: it succeeds exactly when the
/// bytes hold one JSON value, and the value depends on the bytes alone.
#[verifier::external_body]
pub(crate) fn decode_json(body: &[u8]) -> (r: Result<serde_json::Value, serde_json::Error>)
    ensures
        match r {
            Ok(v) => json_decoded_of(body@) == Some(v),
            Err(_) => json_decoded_of(body@) is None,
        },
{
    serde_json::from_slice(body)
}

/// Relies on serde_json::to_vec: the compact serialization of a value, a function of
/// the value alone. It fails only where a `Serialize` impl fails or a map has keys that
/// are not strings, and a `Value` has neither.
#[verifier::external_body]
pub(crate) fn encode_json(v: &serde_json::Value) -> (r: Result<Vec<u8>, serde_json::Error>)
    ensures
        r is Ok,
        r->Ok_0@ == json_bytes_of(*v),
{
    serde_json::to_vec(v)
}

/// Relies on serde_json's `Debug` for `Value`: the text `{:?}` writes, a function of the
/// value alone.
#[verifier::external_body]
pub(crate) fn debug_json(v: &serde_json::Value) -> (r: String)
    ensures
        r@ == json_debug_of(*v),
{
    format!("{:?}", v)
}

/// Relies on `FromIterator<(K, V)> for Value`: an object with those keys, each bound to
/// its string value, a function of the pairs alone.
#[verifier::external_body]
pub(crate) fn json_object(pairs: Vec<(String, String)>) -> (r: serde_json::Value)
    ensures
        r == json_object_of(pair_views(pairs@)),
{
    serde_json::Value::from_iter(pairs)
}

/// Relies on base64::encode: the standard, padded text, a function of the bytes alone;
/// base64::decode reads that text back as the same bytes.
#[verifier::external_body]
#[allow(deprecated)]
pub(crate) fn base64_encode(b: &[u8]) -> (r: String)
    ensures
        r@ == base64_text_of(b@),
        base64_bytes_of(r@) == Some(b@),
{
    base64::encode(b)
}

/// Relies on base64::decode: the bytes of a standard, padded text, or an error when
/// the text is not well formed; a function of the text alone.
#[verifier::external_body]
#[allow(deprecated)]
pub(crate) fn base64_decode(s: &str) -> (r: Result<Vec<u8>, base64::DecodeError>)
    ensures
        match r {
            Ok(v) => base64_bytes_of(s@) == Some(v@),
            Err(_) => base64_bytes_of(s@) is None,
        },
{
    base64::decode(s)
}

} // verus!
