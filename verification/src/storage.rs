//! The read path for persisted peer lists.
//!
//! Previously known peer addresses are persisted per overlay in a
//! key-value store, as a JSON array of strings keyed by an encoded form
//! of the overlay identifier. This module computes the key and reads the
//! store's answer; the store itself is driven from outside. The read
//! path never fails: a failed load and malformed stored bytes are both
//! treated as "no cached peers available" rather than surfaced.

use vstd::prelude::*;
use crate::ids::OverlayShortId;

verus! {

/// The base64 form (standard alphabet, padded) of a byte string.
pub uninterp spec fn base64_of(bytes: Seq<u8>) -> Seq<char>;

/// The JSON reading of a byte string as an array of strings, where it is
/// one.
pub uninterp spec fn json_string_list_of(raw: Seq<u8>) -> Option<Seq<Seq<char>>>;

/// Relies on base64's standard-alphabet engine: encoding is a pure
/// function of the input bytes.
#[verifier::external_body]
fn encode_base64(bytes: &Vec<u8>) -> (r: String)
    ensures
        r@ == base64_of(bytes@),
{
    base64::Engine::encode(&base64::engine::general_purpose::STANDARD, bytes.as_slice())
}

/// Relies on serde_json::from_slice: the parse is a pure function of the
/// bytes, and succeeds exactly on a JSON array of strings.
#[verifier::external_body]
fn parse_json_string_list(raw: &Vec<u8>) -> (r: Option<Vec<String>>)
    ensures
        r matches Some(v) ==> json_string_list_of(raw@) == Some(v.deep_view()),
        r is None ==> json_string_list_of(raw@) is None,
{
    match serde_json::from_slice::<Vec<String>>(raw.as_slice()) {
        Ok(v) => Some(v),
        Err(_) => None,
    }
}

/// The key under which an overlay's peer list is persisted: the base64
/// encoding of the short identifier's bytes, held as an ordinary owned
/// string.
pub fn storage_key(id: &OverlayShortId) -> (s: String)
    ensures
        s@ == base64_of(id@),
{
    encode_base64(id.data())
}

/// The cached peers an overlay's store entry yields. `loaded` is the
/// store's answer, `None` where the load failed. The peer list is
/// returned exactly when the load succeeded and the bytes spell a JSON
/// array of strings, each entry one serialized peer configuration; a
/// failed load and malformed bytes alike are swallowed as "no cached
/// peers available", never an error.
pub fn cached_peer_list(loaded: &Option<Vec<u8>>) -> (r: Option<Vec<String>>)
    ensures
        r is Some <==> (loaded matches Some(raw) && json_string_list_of(raw@) is Some),
        loaded matches Some(raw) ==> (json_string_list_of(raw@) matches Some(l) ==> (
        r matches Some(v) && v.deep_view() == l)),
{
    match loaded {
        Some(raw) => parse_json_string_list(raw),
        None => None,
    }
}

} // verus!
