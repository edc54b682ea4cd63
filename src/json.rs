//! The decoded JSON document, as serde_json gives it.
//!
//! A document is a `serde_json::Value`, which the library reads only through the
//! accessors below. Each accessor names what serde_json returns, so that the
//! parsers' contracts can say exactly which values of the document they read.
use vstd::prelude::*;

verus! {

#[verifier::external_type_specification]
#[verifier::external_body]
pub struct ExValue(serde_json::Value);

/// What `serde_json::from_slice` makes of a byte string: a document, or the
/// message of the error that stopped the decoding.
pub uninterp spec fn json_decode(bytes: Seq<u8>) -> Result<serde_json::Value, Seq<char>>;

/// The member of an object under `key`; `None` for a missing key or a value that
/// is not an object.
pub uninterp spec fn json_member(v: serde_json::Value, key: Seq<char>) -> Option<serde_json::Value>;

/// The text of a string value; `None` for any other value.
pub uninterp spec fn json_str(v: serde_json::Value) -> Option<Seq<char>>;

/// The elements of an array value; `None` for any other value.
pub uninterp spec fn json_array(v: serde_json::Value) -> Option<Seq<serde_json::Value>>;

/// The keys of an object value, in the order in which the object holds them;
/// `None` for any other value.
pub uninterp spec fn json_keys(v: serde_json::Value) -> Option<Seq<Seq<char>>>;

/// The text of the string member of `v` under `key`, if there is one.
pub open spec fn member_text(v: serde_json::Value, key: Seq<char>) -> Option<Seq<char>> {
    match json_member(v, key) {
        Some(m) => json_str(m),
        None => None,
    }
}

/// Relies on `serde_json::from_slice`: decodes a whole byte string as one JSON
/// document; an error is handed on as the message that its `Display` writes.
#[verifier::external_body]
pub fn decode(bytes: &[u8]) -> (r: Result<serde_json::Value, String>)
    ensures
        r is Ok <==> json_decode(bytes@) is Ok,
        r is Ok ==> json_decode(bytes@)->Ok_0 == r->Ok_0,
        r is Err ==> json_decode(bytes@)->Err_0 == r->Err_0@,
{
    serde_json::from_slice(bytes).map_err(|e| e.to_string())
}

/// Relies on `serde_json::Value::get` with a string index: the member of an object.
#[verifier::external_body]
pub fn member<'a>(v: &'a serde_json::Value, key: &str) -> (r: Option<&'a serde_json::Value>)
    ensures
        r is None <==> json_member(*v, key@) is None,
        r matches Some(m) ==> json_member(*v, key@) == Some(*m),
{
    v.get(key)
}

/// Relies on `serde_json::Value::as_str`: the text of a string value.
#[verifier::external_body]
pub fn as_text(v: &serde_json::Value) -> (r: Option<&str>)
    ensures
        r is None <==> json_str(*v) is None,
        r matches Some(s) ==> json_str(*v) == Some(s@),
{
    v.as_str()
}

/// Relies on `serde_json::Value::as_array`: the elements of an array value.
#[verifier::external_body]
pub fn elements(v: &serde_json::Value) -> (r: Option<&Vec<serde_json::Value>>)
    ensures
        r is None <==> json_array(*v) is None,
        r matches Some(a) ==> json_array(*v) == Some(a@),
{
    v.as_array()
}

/// Relies on `serde_json::Value::as_object` and the map's `keys`: the keys of an
/// object value, in the map's order.
#[verifier::external_body]
pub fn keys(v: &serde_json::Value) -> (r: Option<Vec<String>>)
    ensures
        r is None <==> json_keys(*v) is None,
        r matches Some(ks) ==> json_keys(*v) == Some(ks@.map_values(|k: String| k@)),
{
    v.as_object().map(|m| m.keys().cloned().collect())
}

/// Relies on `serde_json::Value::is_object`: whether a value is an object.
#[verifier::external_body]
pub fn is_object(v: &serde_json::Value) -> (r: bool)
    ensures
        r == json_keys(*v) is Some,
{
    v.is_object()
}

/// The message of the document's error envelope, where it has a non-empty one.
pub open spec fn envelope_error(doc: serde_json::Value) -> Option<Seq<char>> {
    match member_text(doc, "Error Message"@) {
        Some(m) => if m.len() > 0 {
            Some(m)
        } else {
            None
        },
        None => None,
    }
}

/// The message of the document's error envelope, where it has a non-empty one.
pub fn envelope(doc: &serde_json::Value) -> (r: Option<String>)
    ensures
        r is Some <==> envelope_error(*doc) is Some,
        r matches Some(m) ==> envelope_error(*doc) == Some(m@),
{
    match member_str(doc, "Error Message") {
        Some(m) => if m.unicode_len() > 0 {
            Some(String::from_str(m))
        } else {
            None
        },
        None => None,
    }
}

/// Whether two texts are equal.
pub fn same_text(a: &str, b: &str) -> (r: bool)
    ensures
        r == (a@ == b@),
{
    let n = a.unicode_len();
    if n != b.unicode_len() {
        return false;
    }
    let mut i: usize = 0;
    while i < n
        invariant
            i <= n,
            n == a@.len(),
            n == b@.len(),
            forall|k: int| 0 <= k < i ==> a@[k] == b@[k],
        decreases n - i,
    {
        if a.get_char(i) != b.get_char(i) {
            return false;
        }
        i = i + 1;
    }
    assert(a@ =~= b@);
    true
}

/// The text of the string member of `v` under `key`, if there is one.
pub fn member_str<'a>(v: &'a serde_json::Value, key: &str) -> (r: Option<&'a str>)
    ensures
        r is None <==> member_text(*v, key@) is None,
        r matches Some(s) ==> member_text(*v, key@) == Some(s@),
{
    match member(v, key) {
        Some(m) => as_text(m),
        None => None,
    }
}


/// A document with a non-empty error envelope fails every parser with that
/// message as an API error, before any metadata or data is looked for.
pub proof fn lemma_error_envelope(
    bytes: Seq<u8>,
    f: crate::time_series::Function,
    query: Option<Seq<char>>,
)
    requires
        json_decode(bytes) is Ok,
        envelope_error(json_decode(bytes)->Ok_0) is Some,
    ensures
        crate::time_series::parse_outcome(f, bytes) == Err::<
            crate::time_series::TimeSeriesView,
            crate::error::ErrorView,
        >(crate::error::ErrorView::Api(envelope_error(json_decode(bytes)->Ok_0)->Some_0)),
        crate::exchange_rate::parse_outcome(bytes) == Err::<
            crate::exchange_rate::ExchangeRateView,
            crate::error::ErrorView,
        >(crate::error::ErrorView::Api(envelope_error(json_decode(bytes)->Ok_0)->Some_0)),
        crate::tickers::parse_outcome(query, bytes) == Err::<
            crate::tickers::SearchResultsView,
            crate::error::ErrorView,
        >(crate::error::ErrorView::Api(envelope_error(json_decode(bytes)->Ok_0)->Some_0)),
{
}

} // verus!
