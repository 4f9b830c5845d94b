//! JSON values, as `serde_json` holds them.
//!
//! `json_of` says what a value holds. Every function here is one call into `serde_json`, and its
//! contract is what that crate's documentation says of the call.

use vstd::prelude::*;

use serde_json::Value;

use crate::text;

verus! {

#[verifier::external_type_specification]
#[verifier::external_body]
pub struct ExValue(serde_json::Value);

#[verifier::external_type_specification]
#[verifier::external_body]
#[verifier::reject_recursive_types(K)]
#[verifier::reject_recursive_types(V)]
pub struct ExMembers<K, V>(serde_json::Map<K, V>);

/// What a JSON value holds.
///
/// `serde_json` keeps an integer without a sign as unsigned and any other integer as negative. A
/// number with a fraction or an exponent stands by the text `serde_json` prints for it.
pub enum JsonView {
    Null,
    Bool(bool),
    Unsigned(u64),
    Negative(i64),
    Decimal(Seq<char>),
    Text(Seq<char>),
    Array(Seq<JsonView>),
    Object(Map<Seq<char>, JsonView>),
}

/// What `value` holds.
pub uninterp spec fn json_of(value: Value) -> JsonView;

/// What the members of an object hold, by name.
pub uninterp spec fn members_of(members: serde_json::Map<String, Value>) -> Map<
    Seq<char>,
    JsonView,
>;

/// What `serde_json::from_str` makes of a text: the value it holds, or the message of the error.
pub uninterp spec fn json_parsed(text: Seq<char>) -> Result<JsonView, Seq<char>>;

/// The text `serde_json` prints for a value.
pub uninterp spec fn json_text(value: JsonView) -> Seq<char>;

/// What the values of a list hold, in order.
pub open spec fn jsons_of(values: Seq<Value>) -> Seq<JsonView> {
    Seq::new(values.len(), |i: int| json_of(values[i]))
}

/// The member of an object under `key`; nothing where there is none or the value is no object.
pub open spec fn member(value: JsonView, key: Seq<char>) -> Option<JsonView> {
    match value {
        JsonView::Object(members) => if members.contains_key(key) {
            Some(members[key])
        } else {
            None
        },
        _ => None,
    }
}

/// The text a value is.
pub open spec fn text_in(value: Option<JsonView>) -> Option<Seq<char>> {
    match value {
        Some(JsonView::Text(text)) => Some(text),
        _ => None,
    }
}

/// The unsigned integer a value is.
pub open spec fn unsigned_in(value: Option<JsonView>) -> Option<u64> {
    match value {
        Some(JsonView::Unsigned(n)) => Some(n),
        _ => None,
    }
}

/// The signed integer a value is.
pub open spec fn signed_in(value: Option<JsonView>) -> Option<i64> {
    match value {
        Some(JsonView::Unsigned(n)) => if n <= i64::MAX {
            Some(n as i64)
        } else {
            None
        },
        Some(JsonView::Negative(n)) => Some(n),
        _ => None,
    }
}

/// The truth value a value is.
pub open spec fn bool_in(value: Option<JsonView>) -> Option<bool> {
    match value {
        Some(JsonView::Bool(b)) => Some(b),
        _ => None,
    }
}

/// Whether a value is a number above zero. `serde_json` prints a negative decimal with a sign, and
/// a decimal zero as `0.0`.
pub open spec fn positive_in(value: Option<JsonView>) -> bool {
    match value {
        Some(JsonView::Unsigned(n)) => n > 0,
        Some(JsonView::Decimal(digits)) => digits.len() > 0 && digits[0] != '-' && digits != "0.0"@,
        _ => false,
    }
}

/// What an optional borrowed value holds.
pub open spec fn json_in(value: Option<&Value>) -> Option<JsonView> {
    match value {
        Some(value) => Some(json_of(*value)),
        None => None,
    }
}

/// `serde_json::from_str::<Value>`: the value a text spells, or the message of the error.
#[verifier::external_body]
pub(crate) fn parse(text: &str) -> (parsed: Result<Value, String>)
    ensures
        match parsed {
            Ok(value) => json_parsed(text@) == Ok::<JsonView, Seq<char>>(json_of(value)),
            Err(message) => json_parsed(text@) == Err::<JsonView, Seq<char>>(message@),
        },
{
    serde_json::from_str::<Value>(text).map_err(|error| error.to_string())
}

/// `Value::to_string`: the compact text of a value.
#[verifier::external_body]
pub(crate) fn print(value: &Value) -> (text: String)
    ensures
        text@ == json_text(json_of(*value)),
        json_of(*value) matches JsonView::Decimal(digits) ==> text@ == digits,
{
    value.to_string()
}

/// `Value::get` with a key: the member of an object.
#[verifier::external_body]
pub(crate) fn get<'a>(value: &'a Value, key: &str) -> (found: Option<&'a Value>)
    ensures
        json_in(found) == member(json_of(*value), key@),
{
    value.get(key)
}

/// `Value::as_str`: the text a value is.
#[verifier::external_body]
pub(crate) fn as_str(value: &Value) -> (found: Option<&str>)
    ensures
        match found {
            Some(text) => json_of(*value) == JsonView::Text(text@),
            None => !(json_of(*value) is Text),
        },
{
    value.as_str()
}

/// `Value::as_u64`: the unsigned integer a value is.
#[verifier::external_body]
pub(crate) fn as_u64(value: &Value) -> (found: Option<u64>)
    ensures
        found == unsigned_in(Some(json_of(*value))),
{
    value.as_u64()
}

/// `Value::as_i64`: the signed integer a value is.
#[verifier::external_body]
pub(crate) fn as_i64(value: &Value) -> (found: Option<i64>)
    ensures
        found == signed_in(Some(json_of(*value))),
{
    value.as_i64()
}

/// `Value::as_bool`: the truth value a value is.
#[verifier::external_body]
pub(crate) fn as_bool(value: &Value) -> (found: Option<bool>)
    ensures
        found == bool_in(Some(json_of(*value))),
{
    value.as_bool()
}

/// `Value::as_array`: the values of an array.
#[verifier::external_body]
pub(crate) fn as_array(value: &Value) -> (found: Option<&Vec<Value>>)
    ensures
        match found {
            Some(values) => json_of(*value) == JsonView::Array(jsons_of(values@)),
            None => !(json_of(*value) is Array),
        },
{
    value.as_array()
}

/// `Value::is_f64`: whether a value is a number that is no integer.
#[verifier::external_body]
pub(crate) fn is_decimal(value: &Value) -> (yes: bool)
    ensures
        yes == (json_of(*value) is Decimal),
{
    value.is_f64()
}

/// `Value::Null`.
#[verifier::external_body]
pub(crate) fn null() -> (value: Value)
    ensures
        json_of(value) == JsonView::Null,
{
    Value::Null
}

/// `Value::Bool`.
#[verifier::external_body]
pub(crate) fn boolean(b: bool) -> (value: Value)
    ensures
        json_of(value) == JsonView::Bool(b),
{
    Value::Bool(b)
}

/// `Value::from` an unsigned integer.
#[verifier::external_body]
pub(crate) fn unsigned(n: u64) -> (value: Value)
    ensures
        json_of(value) == JsonView::Unsigned(n),
{
    Value::from(n)
}

/// `Value::from` a signed integer.
#[verifier::external_body]
pub(crate) fn signed(n: i64) -> (value: Value)
    ensures
        json_of(value) == if n >= 0 {
            JsonView::Unsigned(n as u64)
        } else {
            JsonView::Negative(n)
        },
{
    Value::from(n)
}

/// `Value::from` a text.
#[verifier::external_body]
pub(crate) fn string(text: &str) -> (value: Value)
    ensures
        json_of(value) == JsonView::Text(text@),
{
    Value::from(text)
}

/// `Value::Array`.
#[verifier::external_body]
pub(crate) fn array(values: Vec<Value>) -> (value: Value)
    ensures
        json_of(value) == JsonView::Array(jsons_of(values@)),
{
    Value::Array(values)
}

/// No members at all.
pub open spec fn nothing_held() -> Map<Seq<char>, JsonView> {
    Map::empty()
}

/// `serde_json::Map::new`: no members.
#[verifier::external_body]
pub(crate) fn new_members() -> (members: serde_json::Map<String, Value>)
    ensures
        members_of(members) == nothing_held(),
{
    serde_json::Map::new()
}

/// `serde_json::Map::insert`: adds a member, in the place of one of the same name.
#[verifier::external_body]
pub(crate) fn put(members: &mut serde_json::Map<String, Value>, name: &str, value: Value)
    ensures
        members_of(*final(members)) == members_of(*old(members)).insert(name@, json_of(value)),
{
    members.insert(String::from(name), value);
}

/// `Value::Object`.
#[verifier::external_body]
pub(crate) fn object(members: serde_json::Map<String, Value>) -> (value: Value)
    ensures
        json_of(value) == JsonView::Object(members_of(members)),
{
    Value::Object(members)
}

/// `Value::clone`.
#[verifier::external_body]
pub(crate) fn copy(value: &Value) -> (copy: Value)
    ensures
        json_of(copy) == json_of(*value),
{
    value.clone()
}

/// The text under `key`.
pub(crate) fn text_at(value: &Value, key: &str) -> (found: Option<String>)
    ensures
        text::text_of(found) == text_in(member(json_of(*value), key@)),
{
    match get(value, key) {
        Some(found) => match as_str(found) {
            Some(found) => Some(String::from_str(found)),
            None => None,
        },
        None => None,
    }
}

/// The unsigned integer under `key`.
pub(crate) fn unsigned_at(value: &Value, key: &str) -> (found: Option<u64>)
    ensures
        found == unsigned_in(member(json_of(*value), key@)),
{
    match get(value, key) {
        Some(found) => as_u64(found),
        None => None,
    }
}

/// The signed integer under `key`.
pub(crate) fn signed_at(value: &Value, key: &str) -> (found: Option<i64>)
    ensures
        found == signed_in(member(json_of(*value), key@)),
{
    match get(value, key) {
        Some(found) => as_i64(found),
        None => None,
    }
}

/// The truth value under `key`.
pub(crate) fn bool_at(value: &Value, key: &str) -> (found: Option<bool>)
    ensures
        found == bool_in(member(json_of(*value), key@)),
{
    match get(value, key) {
        Some(found) => as_bool(found),
        None => None,
    }
}

/// Whether there is a number above zero under `key`.
pub(crate) fn positive_at(value: &Value, key: &str) -> (yes: bool)
    ensures
        yes == positive_in(member(json_of(*value), key@)),
{
    match get(value, key) {
        Some(found) => if is_decimal(found) {
            let digits = print(found);
            let digits = digits.as_str();
            digits.unicode_len() > 0 && digits.get_char(0) != '-' && !text::same_text(digits, "0.0")
        } else {
            match as_u64(found) {
                Some(n) => n > 0,
                None => false,
            }
        },
        None => false,
    }
}

} // verus!
