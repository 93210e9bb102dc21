//! What the storage network's answers say: the deposit address, the
//! balance of an account and the name under which an upload was stored.
//!
//! An answer is a JSON value. The library looks members up and reads their
//! strings; what a number means is the library's own reading.

use crate::cache::opt_view;
use crate::decimal::parsed;
use serde_json::Value;
use vstd::prelude::*;

verus! {

/// A JSON value, as `serde_json` holds it.
#[verifier::external_type_specification]
#[verifier::external_body]
pub struct ExValue(serde_json::Value);

/// The member of the JSON object `value` under `key`; `None` if the value is
/// no object or has no such member.
pub uninterp spec fn json_member(value: serde_json::Value, key: Seq<char>) -> Option<
    serde_json::Value,
>;

/// The text of the JSON string `value`; `None` if the value is no string.
pub uninterp spec fn json_text(value: serde_json::Value) -> Option<Seq<char>>;

/// Calls `serde_json::Value::get` with a string index: the member of an
/// object under a key. The contract names the result.
#[verifier::external_body]
pub(crate) fn member<'a>(value: &'a Value, key: &str) -> (r: Option<&'a Value>)
    ensures
        match r {
            Some(found) => json_member(*value, key@) == Some(*found),
            None => json_member(*value, key@) is None,
        },
{
    value.get(key)
}

/// Calls `serde_json::Value::as_str`: the text of a string. The contract
/// names the result.
#[verifier::external_body]
fn text<'a>(value: &'a Value) -> (r: Option<&'a str>)
    ensures
        match r {
            Some(found) => json_text(*value) == Some(found@),
            None => json_text(*value) is None,
        },
{
    value.as_str()
}

/// The text of the member of `value` under `key`, if `value` has such a
/// member and it is a string.
pub open spec fn member_text(value: serde_json::Value, key: Seq<char>) -> Option<Seq<char>> {
    match json_member(value, key) {
        Some(found) => json_text(found),
        None => None,
    }
}

/// The deposit address for Solana that the node's description names: the
/// string under `addresses`, `solana`.
pub open spec fn deposit_address_in(info: serde_json::Value) -> Option<Seq<char>> {
    match json_member(info, "addresses"@) {
        Some(addresses) => member_text(addresses, "solana"@),
        None => None,
    }
}

/// The balance that an answer tells: the number that the string under
/// `balance` writes.
pub open spec fn balance_in(answer: serde_json::Value) -> Option<u64> {
    match member_text(answer, "balance"@) {
        Some(text) => parsed(text),
        None => None,
    }
}

/// The text of the member of `value` under `key`.
pub(crate) fn text_of_member<'a>(value: &'a Value, key: &str) -> (r: Option<&'a str>)
    ensures
        match r {
            Some(found) => member_text(*value, key@) == Some(found@),
            None => member_text(*value, key@) is None,
        },
{
    match member(value, key) {
        Some(found) => text(found),
        None => None,
    }
}

/// The name under which the node stored an upload: the string under `id`
/// in its answer. `None` if the answer has none.
pub fn transaction_id(answer: &Value) -> (r: Option<String>)
    ensures
        opt_view(r) == member_text(*answer, "id"@),
{
    match text_of_member(answer, "id") {
        Some(id) => Some(id.to_owned()),
        None => None,
    }
}

} // verus!
